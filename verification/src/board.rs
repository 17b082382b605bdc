use crate::bitboard::BitBoard;
use crate::bitboard::bit;
use crate::bitboard::clear_bit;
use crate::bitboard::lemma_clear_bit;
use crate::bitboard::lemma_cap_self;
use crate::bitboard::lemma_castle_self;
use crate::bitboard::lemma_clear_set;
use crate::bitboard::lemma_ep_self;
use crate::bitboard::lemma_set_clear;
use crate::bitboard::lemma_two_clear_set;
use crate::bitboard::lemma_move_undo;
use crate::bitboard::lemma_set_bit;
use crate::bitboard::set_bit;
use crate::castle::CastleFlags;
use crate::moves::CastleType;
use crate::moves::Move;
use crate::moves::MoveCommit;
use crate::moves::MoveHistory;
use crate::moves::MoveType;
use crate::piece::BoardPiece;
use crate::piece::Color;
use crate::square::Square;
use vstd::prelude::*;

verus! {

/// The twelve piece sets of a position, one 64-bit square set per piece kind.
#[verifier::ext_equal]
pub ghost struct Boards {
    pub white_rooks: u64,
    pub white_bishops: u64,
    pub white_knights: u64,
    pub white_kings: u64,
    pub white_queens: u64,
    pub white_pawns: u64,
    pub black_rooks: u64,
    pub black_bishops: u64,
    pub black_knights: u64,
    pub black_kings: u64,
    pub black_queens: u64,
    pub black_pawns: u64,
}

/// The square set of one piece kind.
pub open spec fn board_of(b: Boards, p: BoardPiece) -> u64 {
    match p {
        BoardPiece::WhiteRook => b.white_rooks,
        BoardPiece::WhiteBishop => b.white_bishops,
        BoardPiece::WhiteKnight => b.white_knights,
        BoardPiece::WhiteKing => b.white_kings,
        BoardPiece::WhiteQueen => b.white_queens,
        BoardPiece::WhitePawn => b.white_pawns,
        BoardPiece::BlackRook => b.black_rooks,
        BoardPiece::BlackBishop => b.black_bishops,
        BoardPiece::BlackKnight => b.black_knights,
        BoardPiece::BlackKing => b.black_kings,
        BoardPiece::BlackQueen => b.black_queens,
        BoardPiece::BlackPawn => b.black_pawns,
    }
}

/// `b` with the square set of `p` replaced by `v`.
#[verifier::opaque]
pub open spec fn with_board(b: Boards, p: BoardPiece, v: u64) -> Boards {
    match p {
        BoardPiece::WhiteRook => Boards { white_rooks: v, ..b },
        BoardPiece::WhiteBishop => Boards { white_bishops: v, ..b },
        BoardPiece::WhiteKnight => Boards { white_knights: v, ..b },
        BoardPiece::WhiteKing => Boards { white_kings: v, ..b },
        BoardPiece::WhiteQueen => Boards { white_queens: v, ..b },
        BoardPiece::WhitePawn => Boards { white_pawns: v, ..b },
        BoardPiece::BlackRook => Boards { black_rooks: v, ..b },
        BoardPiece::BlackBishop => Boards { black_bishops: v, ..b },
        BoardPiece::BlackKnight => Boards { black_knights: v, ..b },
        BoardPiece::BlackKing => Boards { black_kings: v, ..b },
        BoardPiece::BlackQueen => Boards { black_queens: v, ..b },
        BoardPiece::BlackPawn => Boards { black_pawns: v, ..b },
    }
}

/// Whether the piece set of `p` claims square `sq`.
#[verifier::opaque]
pub open spec fn claims(b: Boards, p: BoardPiece, sq: u8) -> bool {
    bit(board_of(b, p), sq)
}

/// The piece occupying square `sq`, if any: the first piece set that claims
/// the square, in a fixed kind order. Under [`boards_wf`] at most one set
/// claims any square, so the order is immaterial.
#[verifier::opaque]
pub open spec fn piece_at(b: Boards, sq: u8) -> Option<BoardPiece> {
    if claims(b, BoardPiece::WhiteRook, sq) {
        Some(BoardPiece::WhiteRook)
    } else if claims(b, BoardPiece::WhiteBishop, sq) {
        Some(BoardPiece::WhiteBishop)
    } else if claims(b, BoardPiece::WhiteKnight, sq) {
        Some(BoardPiece::WhiteKnight)
    } else if claims(b, BoardPiece::WhiteKing, sq) {
        Some(BoardPiece::WhiteKing)
    } else if claims(b, BoardPiece::WhiteQueen, sq) {
        Some(BoardPiece::WhiteQueen)
    } else if claims(b, BoardPiece::WhitePawn, sq) {
        Some(BoardPiece::WhitePawn)
    } else if claims(b, BoardPiece::BlackRook, sq) {
        Some(BoardPiece::BlackRook)
    } else if claims(b, BoardPiece::BlackBishop, sq) {
        Some(BoardPiece::BlackBishop)
    } else if claims(b, BoardPiece::BlackKnight, sq) {
        Some(BoardPiece::BlackKnight)
    } else if claims(b, BoardPiece::BlackKing, sq) {
        Some(BoardPiece::BlackKing)
    } else if claims(b, BoardPiece::BlackQueen, sq) {
        Some(BoardPiece::BlackQueen)
    } else if claims(b, BoardPiece::BlackPawn, sq) {
        Some(BoardPiece::BlackPawn)
    } else {
        None
    }
}

/// A square is occupied by at most one piece kind.
pub open spec fn boards_wf(b: Boards) -> bool {
    forall|p1: BoardPiece, p2: BoardPiece, sq: u8|
        sq < 64 && #[trigger] claims(b, p1, sq) && #[trigger] claims(b, p2, sq) ==> p1 == p2
}

/// `b` with `p` inserted at `sq`.
pub open spec fn spec_add(b: Boards, p: BoardPiece, sq: u8) -> Boards {
    with_board(b, p, set_bit(board_of(b, p), sq))
}

/// `b` with whatever occupies `sq` removed.
pub open spec fn spec_remove(b: Boards, sq: u8) -> Boards {
    match piece_at(b, sq) {
        None => b,
        Some(p) => with_board(b, p, clear_bit(board_of(b, p), sq)),
    }
}

/// `b` with the occupant of `f` moved to `t`.
pub open spec fn spec_move(b: Boards, f: u8, t: u8) -> Boards {
    match piece_at(b, f) {
        None => b,
        Some(p) => spec_add(spec_remove(b, f), p, t),
    }
}

/// Replacing one square set only changes that set.
pub broadcast proof fn lemma_board_of_with(b: Boards, p: BoardPiece, v: u64, q: BoardPiece)
    ensures
        #[trigger] board_of(with_board(b, p, v), q) == if q == p {
            v
        } else {
            board_of(b, q)
        },
{
    reveal(with_board);
}

/// What each piece set claims after an insertion.
pub proof fn lemma_claims_add(b: Boards, p: BoardPiece, sq: u8, q: BoardPiece, j: u8)
    requires
        sq < 64,
        j < 64,
    ensures
        claims(spec_add(b, p, sq), q, j) == ((q == p && j == sq) || claims(b, q, j)),
{
    reveal(claims);
    broadcast use lemma_board_of_with;
    if q == p {
        lemma_set_bit(board_of(b, p), sq as u64, j as u64);
    }
}

/// What each piece set claims after a removal.
pub proof fn lemma_claims_remove(b: Boards, sq: u8, q: BoardPiece, j: u8)
    requires
        sq < 64,
        j < 64,
    ensures
        claims(spec_remove(b, sq), q, j) == (claims(b, q, j) && !(piece_at(b, sq) == Some(q) && j
            == sq)),
{
    reveal(claims);
    broadcast use lemma_board_of_with;
    match piece_at(b, sq) {
        None => {},
        Some(p) => {
            if q == p {
                lemma_clear_bit(board_of(b, p), sq as u64, j as u64);
            }
        },
    }
}

/// An empty square is claimed by no piece set at all.
pub proof fn lemma_piece_at_none(b: Boards, sq: u8)
    requires
        piece_at(b, sq) is None,
    ensures
        forall|q: BoardPiece| !claims(b, q, sq),
{
    reveal(piece_at);
    assert forall|q: BoardPiece| !claims(b, q, sq) by {
        match q {
            BoardPiece::WhiteRook => {},
            BoardPiece::WhiteBishop => {},
            BoardPiece::WhiteKnight => {},
            BoardPiece::WhiteKing => {},
            BoardPiece::WhiteQueen => {},
            BoardPiece::WhitePawn => {},
            BoardPiece::BlackRook => {},
            BoardPiece::BlackBishop => {},
            BoardPiece::BlackKnight => {},
            BoardPiece::BlackKing => {},
            BoardPiece::BlackQueen => {},
            BoardPiece::BlackPawn => {},
        }
    }
}

/// Under well-formedness the occupant is the unique claimant.
pub proof fn lemma_piece_at_some(b: Boards, sq: u8, p: BoardPiece)
    requires
        boards_wf(b),
        sq < 64,
        piece_at(b, sq) == Some(p),
    ensures
        claims(b, p, sq),
        forall|q: BoardPiece| #[trigger] claims(b, q, sq) ==> q == p,
{
    reveal(piece_at);
}

/// Pointwise equality of claims forces equality of the occupant.
pub proof fn lemma_piece_at_congruence(b1: Boards, b2: Boards, sq: u8)
    requires
        forall|q: BoardPiece| claims(b1, q, sq) == #[trigger] claims(b2, q, sq),
    ensures
        piece_at(b1, sq) == piece_at(b2, sq),
{
    reveal(piece_at);
    assert(claims(b1, BoardPiece::WhiteRook, sq) == claims(b2, BoardPiece::WhiteRook, sq));
    assert(claims(b1, BoardPiece::WhiteBishop, sq) == claims(b2, BoardPiece::WhiteBishop, sq));
    assert(claims(b1, BoardPiece::WhiteKnight, sq) == claims(b2, BoardPiece::WhiteKnight, sq));
    assert(claims(b1, BoardPiece::WhiteKing, sq) == claims(b2, BoardPiece::WhiteKing, sq));
    assert(claims(b1, BoardPiece::WhiteQueen, sq) == claims(b2, BoardPiece::WhiteQueen, sq));
    assert(claims(b1, BoardPiece::WhitePawn, sq) == claims(b2, BoardPiece::WhitePawn, sq));
    assert(claims(b1, BoardPiece::BlackRook, sq) == claims(b2, BoardPiece::BlackRook, sq));
    assert(claims(b1, BoardPiece::BlackBishop, sq) == claims(b2, BoardPiece::BlackBishop, sq));
    assert(claims(b1, BoardPiece::BlackKnight, sq) == claims(b2, BoardPiece::BlackKnight, sq));
    assert(claims(b1, BoardPiece::BlackKing, sq) == claims(b2, BoardPiece::BlackKing, sq));
    assert(claims(b1, BoardPiece::BlackQueen, sq) == claims(b2, BoardPiece::BlackQueen, sq));
    assert(claims(b1, BoardPiece::BlackPawn, sq) == claims(b2, BoardPiece::BlackPawn, sq));
}

/// A square whose unique claimant is `p` holds `p`.
pub proof fn lemma_piece_at_build(b: Boards, sq: u8, p: BoardPiece)
    requires
        claims(b, p, sq),
        forall|q: BoardPiece| #[trigger] claims(b, q, sq) ==> q == p,
    ensures
        piece_at(b, sq) == Some(p),
{
    reveal(piece_at);
}

/// A square that no piece set claims is empty.
pub proof fn lemma_piece_at_empty_build(b: Boards, sq: u8)
    requires
        forall|q: BoardPiece| !claims(b, q, sq),
    ensures
        piece_at(b, sq) is None,
{
    reveal(piece_at);
}

/// Membership in a piece set, spelled as the underlying bit test.
pub proof fn lemma_claims_bit(b: Boards, p: BoardPiece, sq: u8)
    requires
        sq < 64,
    ensures
        claims(b, p, sq) == (board_of(b, p) & (1u64 << (sq as u64)) != 0),
{
    reveal(claims);
}

/// Inserting a piece on an empty square keeps well-formedness and occupies
/// exactly that square.
pub proof fn lemma_wf_add(b: Boards, p: BoardPiece, sq: u8)
    requires
        boards_wf(b),
        sq < 64,
        piece_at(b, sq) is None,
    ensures
        boards_wf(spec_add(b, p, sq)),
        forall|j: u8|
            j < 64 ==> #[trigger] piece_at(spec_add(b, p, sq), j) == if j == sq {
                Some(p)
            } else {
                piece_at(b, j)
            },
{
    let b1 = spec_add(b, p, sq);
    lemma_piece_at_none(b, sq);
    assert forall|q: BoardPiece, j: u8| j < 64 implies #[trigger] claims(b1, q, j) == ((q == p && j
        == sq) || claims(b, q, j)) by {
        lemma_claims_add(b, p, sq, q, j);
    }
    assert forall|j: u8| j < 64 implies #[trigger] piece_at(b1, j) == (if j == sq {
        Some(p)
    } else {
        piece_at(b, j)
    }) by {
        if j == sq {
            assert(claims(b1, p, sq));
            assert(forall|q: BoardPiece| #[trigger] claims(b1, q, sq) ==> q == p);
            lemma_piece_at_build(b1, sq, p);
        } else {
            lemma_piece_at_congruence(b1, b, j);
        }
    }
}

/// Removing the occupant of a square keeps well-formedness and empties
/// exactly that square.
pub proof fn lemma_wf_remove(b: Boards, sq: u8)
    requires
        boards_wf(b),
        sq < 64,
    ensures
        boards_wf(spec_remove(b, sq)),
        forall|j: u8|
            j < 64 ==> #[trigger] piece_at(spec_remove(b, sq), j) == if j == sq {
                None
            } else {
                piece_at(b, j)
            },
{
    let b1 = spec_remove(b, sq);
    assert forall|q: BoardPiece, j: u8| j < 64 implies #[trigger] claims(b1, q, j) == (claims(
        b,
        q,
        j,
    ) && !(piece_at(b, sq) == Some(q) && j == sq)) by {
        lemma_claims_remove(b, sq, q, j);
    }
    assert forall|j: u8| j < 64 implies #[trigger] piece_at(b1, j) == (if j == sq {
        None
    } else {
        piece_at(b, j)
    }) by {
        if j == sq {
            match piece_at(b, sq) {
                None => {
                    lemma_piece_at_none(b, sq);
                    lemma_piece_at_congruence(b1, b, sq);
                },
                Some(p) => {
                    lemma_piece_at_some(b, sq, p);
                    assert(forall|q: BoardPiece| !claims(b1, q, sq));
                    lemma_piece_at_empty_build(b1, sq);
                },
            }
        } else {
            lemma_piece_at_congruence(b1, b, j);
        }
    }
}

/// Moving a piece to an empty square keeps well-formedness, empties the
/// origin and occupies the destination.
pub proof fn lemma_wf_move(b: Boards, f: u8, t: u8)
    requires
        boards_wf(b),
        f < 64,
        t < 64,
        f != t,
        piece_at(b, f) is Some,
        piece_at(b, t) is None,
    ensures
        boards_wf(spec_move(b, f, t)),
        forall|j: u8|
            j < 64 ==> #[trigger] piece_at(spec_move(b, f, t), j) == if j == f {
                None
            } else if j == t {
                piece_at(b, f)
            } else {
                piece_at(b, j)
            },
{
    let p = piece_at(b, f)->0;
    lemma_wf_remove(b, f);
    let br = spec_remove(b, f);
    assert(piece_at(br, t) is None);
    lemma_wf_add(br, p, t);
}


/// The mathematical state of a position: the piece sets, whose turn it is,
/// the en-passant target, the castle-rights byte, the two counters, and the
/// undo log.
#[verifier::ext_equal]
pub ghost struct BoardView {
    pub boards: Boards,
    pub active: Color,
    pub ep: Option<Square>,
    pub flags: u8,
    pub half: u32,
    pub full: u32,
    pub hist: Seq<MoveCommit>,
}

/// The full state of a chess game: twelve piece sets, active color,
/// en-passant target, castle rights, move counters, and the undo log that
/// makes every applied move exactly reversible.
pub struct BoardConfig {
    active_color: Color,
    en_passant_target: Option<Square>,
    castle_flags: CastleFlags,
    halfmove_clock: u32,
    fullmove_number: u32,
    white_rooks: u64,
    white_bishops: u64,
    white_knights: u64,
    white_kings: u64,
    white_queens: u64,
    white_pawns: u64,
    black_rooks: u64,
    black_bishops: u64,
    black_knights: u64,
    black_kings: u64,
    black_queens: u64,
    black_pawns: u64,
    move_history: MoveHistory,
}

impl View for BoardConfig {
    type V = BoardView;

    closed spec fn view(&self) -> BoardView {
        BoardView {
            boards: Boards {
                white_rooks: self.white_rooks,
                white_bishops: self.white_bishops,
                white_knights: self.white_knights,
                white_kings: self.white_kings,
                white_queens: self.white_queens,
                white_pawns: self.white_pawns,
                black_rooks: self.black_rooks,
                black_bishops: self.black_bishops,
                black_knights: self.black_knights,
                black_kings: self.black_kings,
                black_queens: self.black_queens,
                black_pawns: self.black_pawns,
            },
            active: self.active_color,
            ep: self.en_passant_target,
            flags: self.castle_flags.bits,
            half: self.halfmove_clock,
            full: self.fullmove_number,
            hist: self.move_history@,
        }
    }
}

/// The home square of the king of color `c`.
pub open spec fn king_home(c: Color) -> u8 {
    match c {
        Color::White => 4,
        Color::Black => 60,
    }
}

/// Where the king lands when castling.
pub open spec fn king_castle_dst(c: Color, ct: CastleType) -> u8 {
    match (c, ct) {
        (Color::White, CastleType::KingSide) => 6,
        (Color::White, CastleType::QueenSide) => 2,
        (Color::Black, CastleType::KingSide) => 62,
        (Color::Black, CastleType::QueenSide) => 58,
    }
}

/// The home square of the rook that takes part in the castle.
pub open spec fn rook_home(c: Color, ct: CastleType) -> u8 {
    match (c, ct) {
        (Color::White, CastleType::KingSide) => 7,
        (Color::White, CastleType::QueenSide) => 0,
        (Color::Black, CastleType::KingSide) => 63,
        (Color::Black, CastleType::QueenSide) => 56,
    }
}

/// Where that rook lands: the square the king passed through.
pub open spec fn rook_castle_dst(c: Color, ct: CastleType) -> u8 {
    match (c, ct) {
        (Color::White, CastleType::KingSide) => 5,
        (Color::White, CastleType::QueenSide) => 3,
        (Color::Black, CastleType::KingSide) => 61,
        (Color::Black, CastleType::QueenSide) => 59,
    }
}

/// The square one rank behind `t` from the viewpoint of color `c`.
pub open spec fn behind(t: u8, c: Color) -> u8 {
    match c {
        Color::White => (t - 8) as u8,
        Color::Black => (t + 8) as u8,
    }
}

/// A stored en-passant target must be a real square.
pub open spec fn ep_ok(ep: Option<Square>) -> bool {
    match ep {
        None => true,
        Some(s) => s.valid(),
    }
}

/// The castle-rights bits that moving piece `p` away from `from` revokes:
/// moving from a rook home square revokes that single right, and any king
/// move revokes both rights of its color. Landing on a rook home square
/// revokes nothing.
pub open spec fn spec_rights_to_clear(p: BoardPiece, from: Square) -> u8 {
    if p == BoardPiece::WhiteRook {
        if from.idx == 0 {
            crate::castle::WHITE_QUEENSIDE
        } else if from.idx == 7 {
            crate::castle::WHITE_KINGSIDE
        } else {
            0
        }
    } else if p == BoardPiece::BlackRook {
        if from.idx == 56 {
            crate::castle::BLACK_QUEENSIDE
        } else if from.idx == 63 {
            crate::castle::BLACK_KINGSIDE
        } else {
            0
        }
    } else if p == BoardPiece::WhiteKing {
        crate::castle::WHITE_KINGSIDE | crate::castle::WHITE_QUEENSIDE
    } else if p == BoardPiece::BlackKing {
        crate::castle::BLACK_KINGSIDE | crate::castle::BLACK_QUEENSIDE
    } else {
        0
    }
}

/// Both castle-rights bits of one color.
pub open spec fn spec_both_rights(c: Color) -> u8 {
    match c {
        Color::White => crate::castle::WHITE_KINGSIDE | crate::castle::WHITE_QUEENSIDE,
        Color::Black => crate::castle::BLACK_KINGSIDE | crate::castle::BLACK_QUEENSIDE,
    }
}

/// The castle-rights byte after applying move `m` by piece `p` of color `c`.
pub open spec fn spec_flags_after(f: u8, p: BoardPiece, m: Move, c: Color) -> u8 {
    let cleared = spec_rights_to_clear(p, m.from) | (if m.move_type is Castle {
        spec_both_rights(c)
    } else {
        0
    });
    f & !cleared
}

/// The piece sets after the board part of applying `m`.
pub open spec fn spec_apply_boards(b: Boards, m: Move, c: Color) -> Boards {
    let f = m.from.idx;
    let t = m.to.idx;
    match m.move_type {
        MoveType::Normal => spec_move(spec_remove(b, t), f, t),
        MoveType::DoublePush => spec_move(spec_remove(b, t), f, t),
        MoveType::EnPassant => spec_remove(spec_move(b, f, t), behind(t, c)),
        MoveType::Castle(ct) => spec_move(
            spec_move(b, king_home(c), king_castle_dst(c, ct)),
            rook_home(c, ct),
            rook_castle_dst(c, ct),
        ),
        MoveType::Promotion(prom) => spec_add(
            spec_remove(spec_remove(b, t), f),
            prom->0,
            t,
        ),
    }
}

/// The piece captured by `m`, if any.
pub open spec fn spec_apply_cap(b: Boards, m: Move, c: Color) -> Option<BoardPiece> {
    let f = m.from.idx;
    let t = m.to.idx;
    match m.move_type {
        MoveType::Normal => piece_at(b, t),
        MoveType::DoublePush => None,
        MoveType::EnPassant => piece_at(spec_move(b, f, t), behind(t, c)),
        MoveType::Castle(_) => None,
        MoveType::Promotion(_) => piece_at(b, t),
    }
}

/// The full state after applying `m`, assuming it is the mover's turn and
/// [`apply_pre`] holds.
pub open spec fn spec_apply(v: BoardView, m: Move) -> BoardView {
    let p = piece_at(v.boards, m.from.idx)->0;
    let c = p.color();
    let nf = spec_flags_after(v.flags, p, m, c);
    BoardView {
        boards: spec_apply_boards(v.boards, m, c),
        active: v.active.spec_opposite(),
        ep: if m.move_type is DoublePush {
            Some(Square { idx: behind(m.to.idx, c) })
        } else {
            None
        },
        flags: nf,
        half: (v.half + 1) as u32,
        full: if c == Color::Black {
            (v.full + 1) as u32
        } else {
            v.full
        },
        hist: v.hist.push(
            MoveCommit {
                m,
                captured: spec_apply_cap(v.boards, m, c),
                ep_target: v.ep,
                castledelta: CastleFlags { bits: nf ^ v.flags },
            },
        ),
    }
}

/// `b` with `cap`, if any, put back on `sq`.
pub open spec fn spec_restore_cap(b: Boards, cap: Option<BoardPiece>, sq: u8) -> Boards {
    match cap {
        None => b,
        Some(cp) => spec_add(b, cp, sq),
    }
}

/// The piece sets after the board part of undoing the commit `c`, where `pc`
/// is the color of the piece found on the destination square.
pub open spec fn spec_undo_boards(b: Boards, c: MoveCommit, pc: Color) -> Boards {
    let f = c.m.from.idx;
    let t = c.m.to.idx;
    match c.m.move_type {
        MoveType::Normal => spec_restore_cap(spec_move(b, t, f), c.captured, t),
        MoveType::DoublePush => spec_move(b, t, f),
        MoveType::EnPassant => spec_restore_cap(spec_move(b, t, f), c.captured, behind(t, pc)),
        MoveType::Castle(ct) => spec_move(
            spec_move(b, king_castle_dst(pc, ct), king_home(pc)),
            rook_castle_dst(pc, ct),
            rook_home(pc, ct),
        ),
        MoveType::Promotion(_) => spec_restore_cap(
            spec_add(spec_remove(b, t), BoardPiece::spec_pawn_of(pc), f),
            c.captured,
            t,
        ),
    }
}

/// The full state after undoing the newest commit, assuming the log is not
/// empty and the state is well formed.
pub open spec fn spec_undo(v: BoardView) -> BoardView {
    let c = v.hist.last();
    let p = piece_at(v.boards, c.m.to.idx)->0;
    let pc = p.color();
    BoardView {
        boards: spec_undo_boards(v.boards, c, pc),
        active: v.active.spec_opposite(),
        ep: c.ep_target,
        flags: v.flags ^ c.castledelta.bits,
        half: (v.half - 1) as u32,
        full: if pc == Color::Black {
            (v.full - 1) as u32
        } else {
            v.full
        },
        hist: v.hist.drop_last(),
    }
}

/// What a move record must satisfy, in a given state, for `apply_move` to be
/// meaningful: the origin is occupied, and when it is the mover's turn the
/// geometric side conditions of its kind hold. A mismatched color needs
/// nothing further, since the call is then a no-op.
pub open spec fn apply_pre(v: BoardView, m: Move) -> bool {
    &&& m.from.valid()
    &&& m.to.valid()
    &&& piece_at(v.boards, m.from.idx) is Some
    &&& {
        let p = piece_at(v.boards, m.from.idx)->0;
        let c = p.color();
        c == v.active ==> {
            &&& m.from != m.to
            &&& v.half < u32::MAX
            &&& (c == Color::Black ==> v.full < u32::MAX)
            &&& match m.move_type {
                MoveType::Normal => true,
                MoveType::DoublePush => {
                    &&& (c == Color::White ==> m.to.idx >= 8)
                    &&& (c == Color::Black ==> m.to.idx < 56)
                    &&& piece_at(v.boards, m.to.idx) is None
                },
                MoveType::EnPassant => {
                    &&& (c == Color::White ==> m.to.idx >= 8)
                    &&& (c == Color::Black ==> m.to.idx < 56)
                    &&& piece_at(v.boards, m.to.idx) is None
                },
                MoveType::Castle(ct) => {
                    &&& m.from.idx == king_home(c)
                    &&& m.to.idx == king_castle_dst(c, ct)
                    &&& piece_at(v.boards, rook_home(c, ct)) is Some
                    &&& piece_at(v.boards, king_castle_dst(c, ct)) is None
                    &&& piece_at(v.boards, rook_castle_dst(c, ct)) is None
                },
                MoveType::Promotion(prom) => {
                    &&& prom is Some
                    &&& prom->0.color() == c
                    &&& p.is_pawn()
                },
            }
        }
    }
}

/// What the newest commit must satisfy, in the current state, for `undo` to
/// reverse it: the destination is occupied, the squares to be vacated are
/// empty, and the counters can step back.
pub open spec fn undo_top_ok(v: BoardView) -> bool {
    let c = v.hist.last();
    let m = c.m;
    &&& m.from.valid()
    &&& m.to.valid()
    &&& v.half > 0
    &&& ep_ok(c.ep_target)
    &&& piece_at(v.boards, m.to.idx) is Some
    &&& {
        let p = piece_at(v.boards, m.to.idx)->0;
        let pc = p.color();
        &&& (pc == Color::Black ==> v.full > 0)
        &&& match m.move_type {
            MoveType::Normal => {
                &&& m.from != m.to
                &&& piece_at(v.boards, m.from.idx) is None
            },
            MoveType::DoublePush => {
                &&& m.from != m.to
                &&& piece_at(v.boards, m.from.idx) is None
            },
            MoveType::EnPassant => {
                &&& m.from != m.to
                &&& piece_at(v.boards, m.from.idx) is None
                &&& (pc == Color::White ==> m.to.idx >= 8)
                &&& (pc == Color::Black ==> m.to.idx < 56)
                &&& (c.captured is Some ==> {
                    &&& piece_at(v.boards, behind(m.to.idx, pc)) is None
                    &&& behind(m.to.idx, pc) != m.from.idx
                })
            },
            MoveType::Castle(ct) => {
                &&& m.to.idx == king_castle_dst(pc, ct)
                &&& piece_at(v.boards, king_home(pc)) is None
                &&& piece_at(v.boards, rook_castle_dst(pc, ct)) is Some
                &&& piece_at(v.boards, rook_home(pc, ct)) is None
                &&& c.captured is None
            },
            MoveType::Promotion(prom) => {
                &&& prom is Some
                &&& m.from != m.to
                &&& piece_at(v.boards, m.from.idx) is None
            },
        }
    }
}

/// Every entry of the undo log can be rolled back in turn: the newest one is
/// reversible in the current state, and, once it is undone, the same holds of
/// the rest.
pub open spec fn hist_ok(v: BoardView) -> bool
    decreases v.hist.len(),
{
    v.hist.len() > 0 ==> {
        &&& undo_top_ok(v)
        &&& hist_ok(spec_undo(v))
    }
}

/// Well-formedness of a full position state.
pub open spec fn view_wf(v: BoardView) -> bool {
    &&& boards_wf(v.boards)
    &&& ep_ok(v.ep)
    &&& hist_ok(v)
}

/// Two board collections whose twelve square sets agree are the same.
pub proof fn lemma_boards_eq(x: Boards, y: Boards)
    requires
        forall|q: BoardPiece| #[trigger] board_of(x, q) == board_of(y, q),
    ensures
        x == y,
{
    assert(board_of(x, BoardPiece::WhiteRook) == board_of(y, BoardPiece::WhiteRook));
    assert(board_of(x, BoardPiece::WhiteBishop) == board_of(y, BoardPiece::WhiteBishop));
    assert(board_of(x, BoardPiece::WhiteKnight) == board_of(y, BoardPiece::WhiteKnight));
    assert(board_of(x, BoardPiece::WhiteKing) == board_of(y, BoardPiece::WhiteKing));
    assert(board_of(x, BoardPiece::WhiteQueen) == board_of(y, BoardPiece::WhiteQueen));
    assert(board_of(x, BoardPiece::WhitePawn) == board_of(y, BoardPiece::WhitePawn));
    assert(board_of(x, BoardPiece::BlackRook) == board_of(y, BoardPiece::BlackRook));
    assert(board_of(x, BoardPiece::BlackBishop) == board_of(y, BoardPiece::BlackBishop));
    assert(board_of(x, BoardPiece::BlackKnight) == board_of(y, BoardPiece::BlackKnight));
    assert(board_of(x, BoardPiece::BlackKing) == board_of(y, BoardPiece::BlackKing));
    assert(board_of(x, BoardPiece::BlackQueen) == board_of(y, BoardPiece::BlackQueen));
    assert(board_of(x, BoardPiece::BlackPawn) == board_of(y, BoardPiece::BlackPawn));
    assert(x =~= y);
}

#[verifier::rlimit(100)]
proof fn lemma_roundtrip_normal(v: BoardView, m: Move)
    requires
        view_wf(v),
        apply_pre(v, m),
        piece_at(v.boards, m.from.idx)->0.color() == v.active,
        m.move_type is Normal,
    ensures
        spec_undo_boards(
            spec_apply_boards(v.boards, m, piece_at(v.boards, m.from.idx)->0.color()),
            MoveCommit {
                m,
                captured: spec_apply_cap(
                    v.boards,
                    m,
                    piece_at(v.boards, m.from.idx)->0.color(),
                ),
                ep_target: v.ep,
                castledelta: CastleFlags {
                    bits: spec_flags_after(
                        v.flags,
                        piece_at(v.boards, m.from.idx)->0,
                        m,
                        piece_at(v.boards, m.from.idx)->0.color(),
                    ) ^ v.flags,
                },
            },
            piece_at(v.boards, m.from.idx)->0.color(),
        ) == v.boards,
        piece_at(
            spec_apply_boards(v.boards, m, piece_at(v.boards, m.from.idx)->0.color()),
            m.to.idx,
        ) is Some,
        piece_at(
            spec_apply_boards(v.boards, m, piece_at(v.boards, m.from.idx)->0.color()),
            m.to.idx,
        )->0.color() == piece_at(v.boards, m.from.idx)->0.color(),
        boards_wf(spec_apply_boards(v.boards, m, piece_at(v.boards, m.from.idx)->0.color())),
        undo_top_ok(spec_apply(v, m)),
{
    broadcast use lemma_board_of_with;
    let b = v.boards;
    let p = piece_at(b, m.from.idx)->0;
    let c = p.color();
    let f = m.from.idx;
    let t = m.to.idx;
    let cap = spec_apply_cap(b, m, c);
    let ba = spec_apply_boards(b, m, c);
    lemma_piece_at_some(b, f, p);
    lemma_claims_bit(b, p, f);
    lemma_claims_bit(b, p, t);

            lemma_wf_remove(b, t);
            let br = spec_remove(b, t);
            assert(piece_at(br, f) == Some(p));
            lemma_wf_move(br, f, t);
            assert(piece_at(ba, t) == Some(p));
            assert(piece_at(ba, f) is None);
            lemma_wf_move(ba, t, f);
            let bu = spec_move(ba, t, f);
            let bf = spec_restore_cap(bu, cap, t);
            if cap is Some {
                let cp = cap->0;
                lemma_piece_at_some(b, t, cp);
                lemma_claims_bit(b, cp, t);
                assert(piece_at(bu, t) is None);
                lemma_wf_add(bu, cp, t);
                assert forall|q: BoardPiece| #[trigger] board_of(bf, q) == board_of(b, q) by {
                    if cp == p {
                        if q == p {
                            lemma_cap_self(board_of(b, p), f as u64, t as u64);
                        }
                    } else {
                        if q == p {
                            lemma_move_undo(board_of(b, p), f as u64, t as u64);
                        } else if q == cp {
                            lemma_clear_set(board_of(b, cp), t as u64);
                        }
                    }
                }
                lemma_boards_eq(bf, b);
            } else {
                lemma_piece_at_none(b, t);
                assert forall|q: BoardPiece| #[trigger] board_of(bf, q) == board_of(b, q) by {
                    if q == p {
                        lemma_move_undo(board_of(b, p), f as u64, t as u64);
                    }
                }
                lemma_boards_eq(bf, b);
            }
        }

#[verifier::rlimit(100)]
proof fn lemma_roundtrip_doublepush(v: BoardView, m: Move)
    requires
        view_wf(v),
        apply_pre(v, m),
        piece_at(v.boards, m.from.idx)->0.color() == v.active,
        m.move_type is DoublePush,
    ensures
        spec_undo_boards(
            spec_apply_boards(v.boards, m, piece_at(v.boards, m.from.idx)->0.color()),
            MoveCommit {
                m,
                captured: spec_apply_cap(
                    v.boards,
                    m,
                    piece_at(v.boards, m.from.idx)->0.color(),
                ),
                ep_target: v.ep,
                castledelta: CastleFlags {
                    bits: spec_flags_after(
                        v.flags,
                        piece_at(v.boards, m.from.idx)->0,
                        m,
                        piece_at(v.boards, m.from.idx)->0.color(),
                    ) ^ v.flags,
                },
            },
            piece_at(v.boards, m.from.idx)->0.color(),
        ) == v.boards,
        piece_at(
            spec_apply_boards(v.boards, m, piece_at(v.boards, m.from.idx)->0.color()),
            m.to.idx,
        ) is Some,
        piece_at(
            spec_apply_boards(v.boards, m, piece_at(v.boards, m.from.idx)->0.color()),
            m.to.idx,
        )->0.color() == piece_at(v.boards, m.from.idx)->0.color(),
        boards_wf(spec_apply_boards(v.boards, m, piece_at(v.boards, m.from.idx)->0.color())),
        undo_top_ok(spec_apply(v, m)),
{
    broadcast use lemma_board_of_with;
    let b = v.boards;
    let p = piece_at(b, m.from.idx)->0;
    let c = p.color();
    let f = m.from.idx;
    let t = m.to.idx;
    let cap = spec_apply_cap(b, m, c);
    let ba = spec_apply_boards(b, m, c);
    lemma_piece_at_some(b, f, p);
    lemma_claims_bit(b, p, f);
    lemma_claims_bit(b, p, t);

            lemma_piece_at_none(b, t);
            lemma_wf_remove(b, t);
            let br = spec_remove(b, t);
            assert(br == b);
            lemma_wf_move(b, f, t);
            assert(piece_at(ba, t) == Some(p));
            assert(piece_at(ba, f) is None);
            lemma_wf_move(ba, t, f);
            let bu = spec_move(ba, t, f);
            assert forall|q: BoardPiece| #[trigger] board_of(bu, q) == board_of(b, q) by {
                if q == p {
                    lemma_move_undo(board_of(b, p), f as u64, t as u64);
                }
            }
            lemma_boards_eq(bu, b);
        }

#[verifier::rlimit(100)]
proof fn lemma_roundtrip_enpassant(v: BoardView, m: Move)
    requires
        view_wf(v),
        apply_pre(v, m),
        piece_at(v.boards, m.from.idx)->0.color() == v.active,
        m.move_type is EnPassant,
    ensures
        spec_undo_boards(
            spec_apply_boards(v.boards, m, piece_at(v.boards, m.from.idx)->0.color()),
            MoveCommit {
                m,
                captured: spec_apply_cap(
                    v.boards,
                    m,
                    piece_at(v.boards, m.from.idx)->0.color(),
                ),
                ep_target: v.ep,
                castledelta: CastleFlags {
                    bits: spec_flags_after(
                        v.flags,
                        piece_at(v.boards, m.from.idx)->0,
                        m,
                        piece_at(v.boards, m.from.idx)->0.color(),
                    ) ^ v.flags,
                },
            },
            piece_at(v.boards, m.from.idx)->0.color(),
        ) == v.boards,
        piece_at(
            spec_apply_boards(v.boards, m, piece_at(v.boards, m.from.idx)->0.color()),
            m.to.idx,
        ) is Some,
        piece_at(
            spec_apply_boards(v.boards, m, piece_at(v.boards, m.from.idx)->0.color()),
            m.to.idx,
        )->0.color() == piece_at(v.boards, m.from.idx)->0.color(),
        boards_wf(spec_apply_boards(v.boards, m, piece_at(v.boards, m.from.idx)->0.color())),
        undo_top_ok(spec_apply(v, m)),
{
    broadcast use lemma_board_of_with;
    let b = v.boards;
    let p = piece_at(b, m.from.idx)->0;
    let c = p.color();
    let f = m.from.idx;
    let t = m.to.idx;
    let cap = spec_apply_cap(b, m, c);
    let ba = spec_apply_boards(b, m, c);

            let cs = behind(t, c);
    lemma_piece_at_some(b, f, p);
    lemma_claims_bit(b, p, f);
    lemma_claims_bit(b, p, t);
    lemma_claims_bit(b, p, cs);
            lemma_piece_at_none(b, t);
            lemma_wf_move(b, f, t);
            let bm = spec_move(b, f, t);
            assert(cs != t);
            lemma_wf_remove(bm, cs);
            let bb2 = spec_remove(bm, cs);
            assert(bb2 == ba);
            assert(piece_at(ba, t) == Some(p));
            assert(piece_at(ba, f) is None);
            lemma_wf_move(ba, t, f);
            let bu = spec_move(ba, t, f);
            let bf = spec_restore_cap(bu, cap, cs);
            if cap is Some {
                let cp = cap->0;
                assert(cs != f);
                assert(piece_at(bm, cs) == piece_at(b, cs));
                lemma_piece_at_some(b, cs, cp);
                lemma_claims_bit(b, cp, cs);
                assert(piece_at(bu, cs) is None);
                lemma_wf_add(bu, cp, cs);
                assert forall|q: BoardPiece| #[trigger] board_of(bf, q) == board_of(b, q) by {
                    if cp == p {
                        if q == p {
                            lemma_ep_self(board_of(b, p), f as u64, t as u64, cs as u64);
                        }
                    } else {
                        if q == p {
                            lemma_move_undo(board_of(b, p), f as u64, t as u64);
                        } else if q == cp {
                            lemma_clear_set(board_of(b, cp), cs as u64);
                        }
                    }
                }
                lemma_boards_eq(bf, b);
            } else {
                assert forall|q: BoardPiece| #[trigger] board_of(bf, q) == board_of(b, q) by {
                    if q == p {
                        lemma_move_undo(board_of(b, p), f as u64, t as u64);
                    }
                }
                lemma_boards_eq(bf, b);
            }
        }

#[verifier::rlimit(100)]
proof fn lemma_roundtrip_castle(v: BoardView, m: Move)
    requires
        view_wf(v),
        apply_pre(v, m),
        piece_at(v.boards, m.from.idx)->0.color() == v.active,
        m.move_type is Castle,
    ensures
        spec_undo_boards(
            spec_apply_boards(v.boards, m, piece_at(v.boards, m.from.idx)->0.color()),
            MoveCommit {
                m,
                captured: spec_apply_cap(
                    v.boards,
                    m,
                    piece_at(v.boards, m.from.idx)->0.color(),
                ),
                ep_target: v.ep,
                castledelta: CastleFlags {
                    bits: spec_flags_after(
                        v.flags,
                        piece_at(v.boards, m.from.idx)->0,
                        m,
                        piece_at(v.boards, m.from.idx)->0.color(),
                    ) ^ v.flags,
                },
            },
            piece_at(v.boards, m.from.idx)->0.color(),
        ) == v.boards,
        piece_at(
            spec_apply_boards(v.boards, m, piece_at(v.boards, m.from.idx)->0.color()),
            m.to.idx,
        ) is Some,
        piece_at(
            spec_apply_boards(v.boards, m, piece_at(v.boards, m.from.idx)->0.color()),
            m.to.idx,
        )->0.color() == piece_at(v.boards, m.from.idx)->0.color(),
        boards_wf(spec_apply_boards(v.boards, m, piece_at(v.boards, m.from.idx)->0.color())),
        undo_top_ok(spec_apply(v, m)),
{
    broadcast use lemma_board_of_with;
    let b = v.boards;
    let p = piece_at(b, m.from.idx)->0;
    let c = p.color();
    let f = m.from.idx;
    let t = m.to.idx;
    let cap = spec_apply_cap(b, m, c);
    let ba = spec_apply_boards(b, m, c);
    let ct = m.move_type->Castle_0;

            let e = king_home(c);
            let g = king_castle_dst(c, ct);
            let h = rook_home(c, ct);
            let fd = rook_castle_dst(c, ct);
            let pr = piece_at(b, h)->0;
            lemma_piece_at_some(b, e, p);
    lemma_piece_at_some(b, h, pr);
    lemma_claims_bit(b, p, e);
    lemma_claims_bit(b, p, g);
    lemma_claims_bit(b, p, h);
    lemma_claims_bit(b, p, fd);
    lemma_claims_bit(b, pr, h);
    lemma_claims_bit(b, pr, fd);
            lemma_piece_at_none(b, g);
            lemma_piece_at_none(b, fd);
            lemma_wf_move(b, e, g);
            let b1 = spec_move(b, e, g);
            assert(piece_at(b1, h) == Some(pr));
            assert(piece_at(b1, fd) is None);
            lemma_wf_move(b1, h, fd);
            let b2 = spec_move(b1, h, fd);
            assert(b2 == ba);
            assert(piece_at(ba, g) == Some(p));
            assert(piece_at(ba, e) is None);
            lemma_wf_move(ba, g, e);
            let b3 = spec_move(ba, g, e);
            assert(piece_at(b3, fd) == Some(pr));
            assert(piece_at(b3, h) is None);
            lemma_wf_move(b3, fd, h);
            let b4 = spec_move(b3, fd, h);
            assert forall|q: BoardPiece| #[trigger] board_of(b4, q) == board_of(b, q) by {
                if pr == p {
                    if q == p {
                        lemma_castle_self(board_of(b, p), e as u64, g as u64, h as u64, fd as u64);
                    }
                } else {
                    if q == p {
                        lemma_move_undo(board_of(b, p), e as u64, g as u64);
                    } else if q == pr {
                        lemma_move_undo(board_of(b, pr), h as u64, fd as u64);
                    }
                }
            }
            lemma_boards_eq(b4, b);
        }

#[verifier::rlimit(100)]
proof fn lemma_roundtrip_promotion(v: BoardView, m: Move)
    requires
        view_wf(v),
        apply_pre(v, m),
        piece_at(v.boards, m.from.idx)->0.color() == v.active,
        m.move_type is Promotion,
    ensures
        spec_undo_boards(
            spec_apply_boards(v.boards, m, piece_at(v.boards, m.from.idx)->0.color()),
            MoveCommit {
                m,
                captured: spec_apply_cap(
                    v.boards,
                    m,
                    piece_at(v.boards, m.from.idx)->0.color(),
                ),
                ep_target: v.ep,
                castledelta: CastleFlags {
                    bits: spec_flags_after(
                        v.flags,
                        piece_at(v.boards, m.from.idx)->0,
                        m,
                        piece_at(v.boards, m.from.idx)->0.color(),
                    ) ^ v.flags,
                },
            },
            piece_at(v.boards, m.from.idx)->0.color(),
        ) == v.boards,
        piece_at(
            spec_apply_boards(v.boards, m, piece_at(v.boards, m.from.idx)->0.color()),
            m.to.idx,
        ) is Some,
        piece_at(
            spec_apply_boards(v.boards, m, piece_at(v.boards, m.from.idx)->0.color()),
            m.to.idx,
        )->0.color() == piece_at(v.boards, m.from.idx)->0.color(),
        boards_wf(spec_apply_boards(v.boards, m, piece_at(v.boards, m.from.idx)->0.color())),
        undo_top_ok(spec_apply(v, m)),
{
    broadcast use lemma_board_of_with;
    let b = v.boards;
    let p = piece_at(b, m.from.idx)->0;
    let c = p.color();
    let f = m.from.idx;
    let t = m.to.idx;
    let cap = spec_apply_cap(b, m, c);
    let ba = spec_apply_boards(b, m, c);
    let prom_opt = m.move_type->Promotion_0;

            let prom = prom_opt->0;
    lemma_piece_at_some(b, f, p);
    lemma_claims_bit(b, p, f);
    lemma_claims_bit(b, p, t);
    lemma_claims_bit(b, prom, t);
            assert(p == BoardPiece::spec_pawn_of(c));
            lemma_wf_remove(b, t);
            let b1 = spec_remove(b, t);
            assert(piece_at(b1, f) == Some(p));
            lemma_wf_remove(b1, f);
            let b2 = spec_remove(b1, f);
            assert(piece_at(b2, t) is None);
            lemma_wf_add(b2, prom, t);
            assert(ba == spec_add(b2, prom, t));
            assert(piece_at(ba, t) == Some(prom));
            lemma_wf_remove(ba, t);
            let bu1 = spec_remove(ba, t);
            assert(piece_at(bu1, f) is None);
            lemma_wf_add(bu1, p, f);
            let bu2 = spec_add(bu1, p, f);
            let bf = spec_restore_cap(bu2, cap, t);
            if cap is Some {
                let cp = cap->0;
                lemma_piece_at_some(b, t, cp);
                lemma_claims_bit(b, cp, t);
                assert(piece_at(bu2, t) is None);
                lemma_wf_add(bu2, cp, t);
            } else {
                lemma_piece_at_none(b, t);
            }
            assert forall|q: BoardPiece| #[trigger] board_of(bf, q) == board_of(b, q) by {
                if cap is Some {
                    let cp = cap->0;
                    if cp == p && prom == p {
                        if q == p {
                            lemma_cap_self(board_of(b, p), f as u64, t as u64);
                        }
                    } else if cp == p {
                        if q == p {
                            lemma_two_clear_set(board_of(b, p), t as u64, f as u64);
                        } else if q == prom {
                            lemma_set_clear(board_of(b, prom), t as u64);
                        }
                    } else if cp == prom {
                        if q == prom {
                            lemma_clear_set(board_of(b, prom), t as u64);
                        } else if q == p {
                            lemma_clear_set(board_of(b, p), f as u64);
                        }
                    } else {
                        if q == cp {
                            lemma_clear_set(board_of(b, cp), t as u64);
                        } else if q == p && prom == p {
                            lemma_move_undo(board_of(b, p), f as u64, t as u64);
                        } else if q == p {
                            lemma_clear_set(board_of(b, p), f as u64);
                        } else if q == prom {
                            lemma_set_clear(board_of(b, prom), t as u64);
                        }
                    }
                } else {
                    if q == p && prom == p {
                        lemma_move_undo(board_of(b, p), f as u64, t as u64);
                    } else if q == p {
                        lemma_clear_set(board_of(b, p), f as u64);
                    } else if q == prom {
                        lemma_set_clear(board_of(b, prom), t as u64);
                    }
                }
            }
            lemma_boards_eq(bf, b);
        }

/// Undoing a just-applied move restores the piece sets exactly, and the
/// destination square then holds a piece of the mover's color.
pub proof fn lemma_apply_undo_boards(v: BoardView, m: Move)
    requires
        view_wf(v),
        apply_pre(v, m),
        piece_at(v.boards, m.from.idx)->0.color() == v.active,
    ensures
        spec_undo_boards(
            spec_apply_boards(v.boards, m, piece_at(v.boards, m.from.idx)->0.color()),
            MoveCommit {
                m,
                captured: spec_apply_cap(
                    v.boards,
                    m,
                    piece_at(v.boards, m.from.idx)->0.color(),
                ),
                ep_target: v.ep,
                castledelta: CastleFlags {
                    bits: spec_flags_after(
                        v.flags,
                        piece_at(v.boards, m.from.idx)->0,
                        m,
                        piece_at(v.boards, m.from.idx)->0.color(),
                    ) ^ v.flags,
                },
            },
            piece_at(v.boards, m.from.idx)->0.color(),
        ) == v.boards,
        piece_at(
            spec_apply_boards(v.boards, m, piece_at(v.boards, m.from.idx)->0.color()),
            m.to.idx,
        ) is Some,
        piece_at(
            spec_apply_boards(v.boards, m, piece_at(v.boards, m.from.idx)->0.color()),
            m.to.idx,
        )->0.color() == piece_at(v.boards, m.from.idx)->0.color(),
        boards_wf(spec_apply_boards(v.boards, m, piece_at(v.boards, m.from.idx)->0.color())),
        undo_top_ok(spec_apply(v, m)),
{
    match m.move_type {
        MoveType::Normal => lemma_roundtrip_normal(v, m),
        MoveType::DoublePush => lemma_roundtrip_doublepush(v, m),
        MoveType::EnPassant => lemma_roundtrip_enpassant(v, m),
        MoveType::Castle(_) => lemma_roundtrip_castle(v, m),
        MoveType::Promotion(_) => lemma_roundtrip_promotion(v, m),
    }
}

/// Undoing a just-applied move restores the whole state: the central
/// guarantee of the reversible log.
pub proof fn lemma_apply_undo(v: BoardView, m: Move)
    requires
        view_wf(v),
        apply_pre(v, m),
        piece_at(v.boards, m.from.idx)->0.color() == v.active,
    ensures
        spec_undo(spec_apply(v, m)) == v,
        view_wf(spec_apply(v, m)),
{
    let b = v.boards;
    let p = piece_at(b, m.from.idx)->0;
    let c = p.color();
    let w = spec_apply(v, m);
    lemma_apply_undo_boards(v, m);
    let cm = w.hist.last();
    assert(cm == MoveCommit {
        m,
        captured: spec_apply_cap(b, m, c),
        ep_target: v.ep,
        castledelta: CastleFlags { bits: spec_flags_after(v.flags, p, m, c) ^ v.flags },
    });
    crate::castle::lemma_xor_delta_restores(v.flags, w.flags);
    assert(piece_at(w.boards, m.to.idx)->0.color() == c);
    assert(spec_undo(w).boards == v.boards);
    assert(spec_undo(w).hist =~= v.hist);
    assert(spec_undo(w) =~= v);
    assert(hist_ok(w)) by {
        assert(undo_top_ok(w));
        assert(hist_ok(spec_undo(w)));
    }
}

/// Removing elsewhere leaves a square's occupant alone.
pub proof fn lemma_piece_at_other_remove(b: Boards, sq: u8, j: u8)
    requires
        sq < 64,
        j < 64,
        j != sq,
    ensures
        piece_at(spec_remove(b, sq), j) == piece_at(b, j),
{
    let b1 = spec_remove(b, sq);
    assert forall|q: BoardPiece| claims(b1, q, j) == #[trigger] claims(b, q, j) by {
        lemma_claims_remove(b, sq, q, j);
    }
    lemma_piece_at_congruence(b1, b, j);
}

/// Inserting elsewhere leaves a square's occupant alone.
pub proof fn lemma_piece_at_other_add(b: Boards, p: BoardPiece, sq: u8, j: u8)
    requires
        sq < 64,
        j < 64,
        j != sq,
    ensures
        piece_at(spec_add(b, p, sq), j) == piece_at(b, j),
{
    let b1 = spec_add(b, p, sq);
    assert forall|q: BoardPiece| claims(b1, q, j) == #[trigger] claims(b, q, j) by {
        lemma_claims_add(b, p, sq, q, j);
    }
    lemma_piece_at_congruence(b1, b, j);
}

/// Moving elsewhere leaves a square's occupant alone.
pub proof fn lemma_piece_at_other_move(b: Boards, f: u8, t: u8, j: u8)
    requires
        f < 64,
        t < 64,
        j < 64,
        j != f,
        j != t,
    ensures
        piece_at(spec_move(b, f, t), j) == piece_at(b, j),
{
    match piece_at(b, f) {
        None => {},
        Some(p) => {
            lemma_piece_at_other_remove(b, f, j);
            lemma_piece_at_other_add(spec_remove(b, f), p, t, j);
        },
    }
}

/// Undoing the newest commit of a well-formed state keeps the piece sets
/// well formed.
#[verifier::rlimit(100)]
pub proof fn lemma_undo_wf(v: BoardView)
    requires
        view_wf(v),
        v.hist.len() > 0,
    ensures
        boards_wf(spec_undo(v).boards),
{
    let c = v.hist.last();
    let m = c.m;
    let b = v.boards;
    let f = m.from.idx;
    let t = m.to.idx;
    let p = piece_at(b, t)->0;
    let pc = p.color();
    match m.move_type {
        MoveType::Normal => {
            lemma_wf_move(b, t, f);
            let bu = spec_move(b, t, f);
            if c.captured is Some {
                lemma_wf_add(bu, c.captured->0, t);
            }
        },
        MoveType::DoublePush => {
            lemma_wf_move(b, t, f);
        },
        MoveType::EnPassant => {
            let cs = behind(t, pc);
            lemma_wf_move(b, t, f);
            let bu = spec_move(b, t, f);
            if c.captured is Some {
                assert(piece_at(bu, cs) is None);
                lemma_wf_add(bu, c.captured->0, cs);
            }
        },
        MoveType::Castle(ct) => {
            let e = king_home(pc);
            let g = king_castle_dst(pc, ct);
            let h = rook_home(pc, ct);
            let fd = rook_castle_dst(pc, ct);
            lemma_wf_move(b, g, e);
            let b1 = spec_move(b, g, e);
            assert(piece_at(b1, fd) is Some);
            assert(piece_at(b1, h) is None);
            lemma_wf_move(b1, fd, h);
        },
        MoveType::Promotion(_) => {
            lemma_wf_remove(b, t);
            let b1 = spec_remove(b, t);
            assert(piece_at(b1, f) is None);
            lemma_wf_add(b1, BoardPiece::spec_pawn_of(pc), f);
            let b2 = spec_add(b1, BoardPiece::spec_pawn_of(pc), f);
            if c.captured is Some {
                assert(piece_at(b2, t) is None);
                lemma_wf_add(b2, c.captured->0, t);
            }
        },
    }
}

/// The castle-rights bits that moving `p` away from `from` revokes.
pub fn rights_to_clear(p: BoardPiece, from: Square) -> (r: u8)
    ensures
        r == spec_rights_to_clear(p, from),
{
    if p == BoardPiece::WhiteRook {
        if from.idx == 0 {
            crate::castle::WHITE_QUEENSIDE
        } else if from.idx == 7 {
            crate::castle::WHITE_KINGSIDE
        } else {
            0
        }
    } else if p == BoardPiece::BlackRook {
        if from.idx == 56 {
            crate::castle::BLACK_QUEENSIDE
        } else if from.idx == 63 {
            crate::castle::BLACK_KINGSIDE
        } else {
            0
        }
    } else if p == BoardPiece::WhiteKing {
        crate::castle::WHITE_KINGSIDE | crate::castle::WHITE_QUEENSIDE
    } else if p == BoardPiece::BlackKing {
        crate::castle::BLACK_KINGSIDE | crate::castle::BLACK_QUEENSIDE
    } else {
        0
    }
}

fn both_rights(c: Color) -> (r: u8)
    ensures
        r == spec_both_rights(c),
{
    match c {
        Color::White => crate::castle::WHITE_KINGSIDE | crate::castle::WHITE_QUEENSIDE,
        Color::Black => crate::castle::BLACK_KINGSIDE | crate::castle::BLACK_QUEENSIDE,
    }
}

pub fn king_home_sq(c: Color) -> (r: u8)
    ensures
        r == king_home(c),
{
    match c {
        Color::White => 4,
        Color::Black => 60,
    }
}

pub fn king_castle_dst_sq(c: Color, ct: CastleType) -> (r: u8)
    ensures
        r == king_castle_dst(c, ct),
{
    match (c, ct) {
        (Color::White, CastleType::KingSide) => 6,
        (Color::White, CastleType::QueenSide) => 2,
        (Color::Black, CastleType::KingSide) => 62,
        (Color::Black, CastleType::QueenSide) => 58,
    }
}

pub fn rook_home_sq(c: Color, ct: CastleType) -> (r: u8)
    ensures
        r == rook_home(c, ct),
{
    match (c, ct) {
        (Color::White, CastleType::KingSide) => 7,
        (Color::White, CastleType::QueenSide) => 0,
        (Color::Black, CastleType::KingSide) => 63,
        (Color::Black, CastleType::QueenSide) => 56,
    }
}

pub fn rook_castle_dst_sq(c: Color, ct: CastleType) -> (r: u8)
    ensures
        r == rook_castle_dst(c, ct),
{
    match (c, ct) {
        (Color::White, CastleType::KingSide) => 5,
        (Color::White, CastleType::QueenSide) => 3,
        (Color::Black, CastleType::KingSide) => 61,
        (Color::Black, CastleType::QueenSide) => 59,
    }
}

impl BoardConfig {
    /// Everything a position must satisfy to be used: the piece sets claim
    /// each square at most once, the en-passant target is a real square, and
    /// each entry of the undo log can be rolled back in turn.
    pub open spec fn wf(&self) -> bool {
        view_wf(self@)
    }

    /// The piece standing on `sq`, if any.
    pub fn get_at_sq(&self, sq: Square) -> (r: Option<BoardPiece>)
        requires
            sq.valid(),
        ensures
            r == piece_at(self@.boards, sq.idx),
    {
        proof {
            reveal(piece_at);
            reveal(claims);
        }
        let m: u64 = 1u64 << (sq.idx as u64);
        if self.white_rooks & m != 0 {
            Some(BoardPiece::WhiteRook)
        } else if self.white_bishops & m != 0 {
            Some(BoardPiece::WhiteBishop)
        } else if self.white_knights & m != 0 {
            Some(BoardPiece::WhiteKnight)
        } else if self.white_kings & m != 0 {
            Some(BoardPiece::WhiteKing)
        } else if self.white_queens & m != 0 {
            Some(BoardPiece::WhiteQueen)
        } else if self.white_pawns & m != 0 {
            Some(BoardPiece::WhitePawn)
        } else if self.black_rooks & m != 0 {
            Some(BoardPiece::BlackRook)
        } else if self.black_bishops & m != 0 {
            Some(BoardPiece::BlackBishop)
        } else if self.black_knights & m != 0 {
            Some(BoardPiece::BlackKnight)
        } else if self.black_kings & m != 0 {
            Some(BoardPiece::BlackKing)
        } else if self.black_queens & m != 0 {
            Some(BoardPiece::BlackQueen)
        } else if self.black_pawns & m != 0 {
            Some(BoardPiece::BlackPawn)
        } else {
            None
        }
    }

    fn remove_piece(&mut self, from: Square) -> (r: Option<BoardPiece>)
        requires
            from.valid(),
        ensures
            r == piece_at(old(self)@.boards, from.idx),
            final(self)@ == (BoardView {
                boards: spec_remove(old(self)@.boards, from.idx),
                ..old(self)@
            }),
    {
        let p_opt = self.get_at_sq(from);
        let mask: u64 = !(1u64 << (from.idx as u64));
        match p_opt {
            None => {},
            Some(BoardPiece::WhiteRook) => { self.white_rooks = self.white_rooks & mask; },
            Some(BoardPiece::WhiteBishop) => { self.white_bishops = self.white_bishops & mask; },
            Some(BoardPiece::WhiteKnight) => { self.white_knights = self.white_knights & mask; },
            Some(BoardPiece::WhiteKing) => { self.white_kings = self.white_kings & mask; },
            Some(BoardPiece::WhiteQueen) => { self.white_queens = self.white_queens & mask; },
            Some(BoardPiece::WhitePawn) => { self.white_pawns = self.white_pawns & mask; },
            Some(BoardPiece::BlackRook) => { self.black_rooks = self.black_rooks & mask; },
            Some(BoardPiece::BlackBishop) => { self.black_bishops = self.black_bishops & mask; },
            Some(BoardPiece::BlackKnight) => { self.black_knights = self.black_knights & mask; },
            Some(BoardPiece::BlackKing) => { self.black_kings = self.black_kings & mask; },
            Some(BoardPiece::BlackQueen) => { self.black_queens = self.black_queens & mask; },
            Some(BoardPiece::BlackPawn) => { self.black_pawns = self.black_pawns & mask; },
        }
        proof {
            reveal(with_board);
            assert(self@.boards =~= spec_remove(old(self)@.boards, from.idx));
        }
        p_opt
    }

    pub(crate) fn add_piece(&mut self, p: BoardPiece, to: Square)
        requires
            to.valid(),
        ensures
            final(self)@ == (BoardView {
                boards: spec_add(old(self)@.boards, p, to.idx),
                ..old(self)@
            }),
    {
        let mask: u64 = 1u64 << (to.idx as u64);
        match p {
            BoardPiece::WhiteRook => { self.white_rooks = self.white_rooks | mask; },
            BoardPiece::WhiteBishop => { self.white_bishops = self.white_bishops | mask; },
            BoardPiece::WhiteKnight => { self.white_knights = self.white_knights | mask; },
            BoardPiece::WhiteKing => { self.white_kings = self.white_kings | mask; },
            BoardPiece::WhiteQueen => { self.white_queens = self.white_queens | mask; },
            BoardPiece::WhitePawn => { self.white_pawns = self.white_pawns | mask; },
            BoardPiece::BlackRook => { self.black_rooks = self.black_rooks | mask; },
            BoardPiece::BlackBishop => { self.black_bishops = self.black_bishops | mask; },
            BoardPiece::BlackKnight => { self.black_knights = self.black_knights | mask; },
            BoardPiece::BlackKing => { self.black_kings = self.black_kings | mask; },
            BoardPiece::BlackQueen => { self.black_queens = self.black_queens | mask; },
            BoardPiece::BlackPawn => { self.black_pawns = self.black_pawns | mask; },
        }
        proof {
            reveal(with_board);
            assert(self@.boards =~= spec_add(old(self)@.boards, p, to.idx));
        }
    }

    fn move_piece(&mut self, from: Square, to: Square)
        requires
            from.valid(),
            to.valid(),
            piece_at(old(self)@.boards, from.idx) is Some,
        ensures
            final(self)@ == (BoardView {
                boards: spec_move(old(self)@.boards, from.idx, to.idx),
                ..old(self)@
            }),
    {
        let p = self.get_at_sq(from).unwrap();
        self.remove_piece(from);
        self.add_piece(p, to);
    }

    fn toggle_active_color(&mut self)
        ensures
            final(self)@ == (BoardView {
                active: old(self)@.active.spec_opposite(),
                ..old(self)@
            }),
    {
        self.active_color = match self.active_color {
            Color::White => Color::Black,
            Color::Black => Color::White,
        };
    }

    fn apply_normal(&mut self, from: Square, to: Square) -> (cap: Option<BoardPiece>)
        requires
            from.valid(),
            to.valid(),
            from != to,
            piece_at(old(self)@.boards, from.idx) is Some,
        ensures
            cap == piece_at(old(self)@.boards, to.idx),
            final(self)@ == (BoardView {
                boards: spec_move(spec_remove(old(self)@.boards, to.idx), from.idx, to.idx),
                ..old(self)@
            }),
    {
        let cap = self.remove_piece(to);
        proof {
            lemma_piece_at_other_remove(old(self)@.boards, to.idx, from.idx);
        }
        self.move_piece(from, to);
        cap
    }

    fn apply_double_push(&mut self, from: Square, to: Square, p: BoardPiece) -> (cap: Option<
        BoardPiece,
    >)
        requires
            from.valid(),
            to.valid(),
            from != to,
            piece_at(old(self)@.boards, from.idx) is Some,
            p.color() == Color::White ==> to.idx >= 8,
            p.color() == Color::Black ==> to.idx < 56,
        ensures
            cap is None,
            final(self)@ == (BoardView {
                boards: spec_move(spec_remove(old(self)@.boards, to.idx), from.idx, to.idx),
                ep: Some(Square { idx: behind(to.idx, p.color()) }),
                ..old(self)@
            }),
    {
        let pcolor = p.get_color();
        self.remove_piece(to);
        proof {
            lemma_piece_at_other_remove(old(self)@.boards, to.idx, from.idx);
        }
        self.move_piece(from, to);
        let e: u8 = match pcolor {
            Color::White => to.idx - 8,
            Color::Black => to.idx + 8,
        };
        self.en_passant_target = Some(Square { idx: e });
        None
    }

    fn apply_en_passant(&mut self, from: Square, to: Square, p: BoardPiece) -> (cap: Option<
        BoardPiece,
    >)
        requires
            from.valid(),
            to.valid(),
            piece_at(old(self)@.boards, from.idx) is Some,
            p.color() == Color::White ==> to.idx >= 8,
            p.color() == Color::Black ==> to.idx < 56,
        ensures
            cap == piece_at(
                spec_move(old(self)@.boards, from.idx, to.idx),
                behind(to.idx, p.color()),
            ),
            final(self)@ == (BoardView {
                boards: spec_remove(
                    spec_move(old(self)@.boards, from.idx, to.idx),
                    behind(to.idx, p.color()),
                ),
                ..old(self)@
            }),
    {
        let pcolor = p.get_color();
        self.move_piece(from, to);
        let cs: u8 = match pcolor {
            Color::White => to.idx - 8,
            Color::Black => to.idx + 8,
        };
        self.remove_piece(Square { idx: cs })
    }

    fn apply_castle(&mut self, p: BoardPiece, castle_type: CastleType) -> (cap: Option<BoardPiece>)
        requires
            piece_at(old(self)@.boards, king_home(p.color())) is Some,
            piece_at(old(self)@.boards, rook_home(p.color(), castle_type)) is Some,
        ensures
            cap is None,
            final(self)@ == (BoardView {
                boards: spec_move(
                    spec_move(
                        old(self)@.boards,
                        king_home(p.color()),
                        king_castle_dst(p.color(), castle_type),
                    ),
                    rook_home(p.color(), castle_type),
                    rook_castle_dst(p.color(), castle_type),
                ),
                ..old(self)@
            }),
    {
        let pcolor = p.get_color();
        let e = king_home_sq(pcolor);
        let g = king_castle_dst_sq(pcolor, castle_type);
        let h = rook_home_sq(pcolor, castle_type);
        let fd = rook_castle_dst_sq(pcolor, castle_type);
        self.move_piece(Square::new(e), Square::new(g));
        proof {
            lemma_piece_at_other_move(old(self)@.boards, e, g, h);
        }
        self.move_piece(Square::new(h), Square::new(fd));
        None
    }

    fn apply_promotion(&mut self, from: Square, to: Square, prom: BoardPiece) -> (cap: Option<
        BoardPiece,
    >)
        requires
            from.valid(),
            to.valid(),
        ensures
            cap == piece_at(old(self)@.boards, to.idx),
            final(self)@ == (BoardView {
                boards: spec_add(
                    spec_remove(spec_remove(old(self)@.boards, to.idx), from.idx),
                    prom,
                    to.idx,
                ),
                ..old(self)@
            }),
    {
        let cap = self.remove_piece(to);
        self.remove_piece(from);
        self.add_piece(prom, to);
        cap
    }

    /// Applies a classified move. A move by the side not to play is a silent
    /// no-op; otherwise the state becomes [`spec_apply`] of the old state,
    /// one undo record is pushed, undoing it would restore the old state
    /// exactly, castle rights only ever shrink, and the en-passant target is
    /// set exactly when the move was a double push.
    pub fn apply_move(&mut self, m: Move)
        requires
            old(self).wf(),
            apply_pre(old(self)@, m),
        ensures
            final(self).wf(),
            piece_at(old(self)@.boards, m.from.idx)->0.color() != old(self)@.active
                ==> final(self)@ == old(self)@,
            piece_at(old(self)@.boards, m.from.idx)->0.color() == old(self)@.active ==> {
                &&& final(self)@ == spec_apply(old(self)@, m)
                &&& spec_undo(final(self)@) == old(self)@
                &&& (final(self)@.ep is Some <==> m.move_type is DoublePush)
            },
            crate::castle::can_wk(final(self)@.flags) ==> crate::castle::can_wk(old(self)@.flags),
            crate::castle::can_wq(final(self)@.flags) ==> crate::castle::can_wq(old(self)@.flags),
            crate::castle::can_bk(final(self)@.flags) ==> crate::castle::can_bk(old(self)@.flags),
            crate::castle::can_bq(final(self)@.flags) ==> crate::castle::can_bq(old(self)@.flags),
    {
        let p = self.get_at_sq(m.from).unwrap();
        let pcolor = p.get_color();
        if pcolor != self.active_color {
            return ;
        }
        let prev_ep = self.en_passant_target;
        let prev_flags = self.castle_flags;
        let cap = match m.move_type {
            MoveType::Normal => self.apply_normal(m.from, m.to),
            MoveType::DoublePush => self.apply_double_push(m.from, m.to, p),
            MoveType::EnPassant => self.apply_en_passant(m.from, m.to, p),
            MoveType::Castle(castle_type) => self.apply_castle(p, castle_type),
            MoveType::Promotion(prom) => {
                let pp = prom.unwrap();
                self.apply_promotion(m.from, m.to, pp)
            },
        };
        match m.move_type {
            MoveType::DoublePush => {},
            _ => { self.en_passant_target = None; },
        }
        let is_castle = match m.move_type {
            MoveType::Castle(_) => true,
            _ => false,
        };
        let cleared = rights_to_clear(p, m.from) | (if is_castle {
            both_rights(pcolor)
        } else {
            0
        });
        self.castle_flags = CastleFlags { bits: self.castle_flags.bits & !cleared };
        if pcolor == Color::Black {
            self.fullmove_number = self.fullmove_number + 1;
        }
        let delta = self.castle_flags.bits ^ prev_flags.bits;
        self.halfmove_clock = self.halfmove_clock + 1;
        self.toggle_active_color();
        self.move_history.push(MoveCommit::new(m, cap, prev_ep, CastleFlags { bits: delta }));
        proof {
            lemma_apply_undo(old(self)@, m);
            assert(self@ =~= spec_apply(old(self)@, m));
            crate::castle::lemma_rights_monotone(old(self)@.flags, cleared);
        }
    }

    fn undo_normal(&mut self, from: Square, to: Square, cap: Option<BoardPiece>)
        requires
            from.valid(),
            to.valid(),
            piece_at(old(self)@.boards, to.idx) is Some,
        ensures
            final(self)@ == (BoardView {
                boards: spec_restore_cap(
                    spec_move(old(self)@.boards, to.idx, from.idx),
                    cap,
                    to.idx,
                ),
                ..old(self)@
            }),
    {
        self.move_piece(to, from);
        if let Some(c) = cap {
            self.add_piece(c, to);
        }
    }

    fn undo_double_push(&mut self, from: Square, to: Square)
        requires
            from.valid(),
            to.valid(),
            piece_at(old(self)@.boards, to.idx) is Some,
        ensures
            final(self)@ == (BoardView {
                boards: spec_move(old(self)@.boards, to.idx, from.idx),
                ..old(self)@
            }),
    {
        self.move_piece(to, from);
    }

    fn undo_castle(&mut self, p: BoardPiece, castle_type: CastleType)
        requires
            piece_at(old(self)@.boards, king_castle_dst(p.color(), castle_type)) is Some,
            piece_at(old(self)@.boards, rook_castle_dst(p.color(), castle_type)) is Some,
        ensures
            final(self)@ == (BoardView {
                boards: spec_move(
                    spec_move(
                        old(self)@.boards,
                        king_castle_dst(p.color(), castle_type),
                        king_home(p.color()),
                    ),
                    rook_castle_dst(p.color(), castle_type),
                    rook_home(p.color(), castle_type),
                ),
                ..old(self)@
            }),
    {
        let pcolor = p.get_color();
        let e = king_home_sq(pcolor);
        let g = king_castle_dst_sq(pcolor, castle_type);
        let h = rook_home_sq(pcolor, castle_type);
        let fd = rook_castle_dst_sq(pcolor, castle_type);
        self.move_piece(Square::new(g), Square::new(e));
        proof {
            lemma_piece_at_other_move(old(self)@.boards, g, e, fd);
        }
        self.move_piece(Square::new(fd), Square::new(h));
    }

    fn undo_promotion(&mut self, from: Square, to: Square, p: BoardPiece, cap: Option<BoardPiece>)
        requires
            from.valid(),
            to.valid(),
        ensures
            final(self)@ == (BoardView {
                boards: spec_restore_cap(
                    spec_add(
                        spec_remove(old(self)@.boards, to.idx),
                        BoardPiece::spec_pawn_of(p.color()),
                        from.idx,
                    ),
                    cap,
                    to.idx,
                ),
                ..old(self)@
            }),
    {
        self.remove_piece(to);
        let pawn = BoardPiece::pawn_of(p.get_color());
        self.add_piece(pawn, from);
        if let Some(c) = cap {
            self.add_piece(c, to);
        }
    }

    fn undo_en_passant(&mut self, from: Square, to: Square, p: BoardPiece, cap: Option<BoardPiece>)
        requires
            from.valid(),
            to.valid(),
            piece_at(old(self)@.boards, to.idx) is Some,
            p.color() == Color::White ==> to.idx >= 8,
            p.color() == Color::Black ==> to.idx < 56,
        ensures
            final(self)@ == (BoardView {
                boards: spec_restore_cap(
                    spec_move(old(self)@.boards, to.idx, from.idx),
                    cap,
                    behind(to.idx, p.color()),
                ),
                ..old(self)@
            }),
    {
        self.move_piece(to, from);
        if let Some(c) = cap {
            let cs: u8 = match p.get_color() {
                Color::White => to.idx - 8,
                Color::Black => to.idx + 8,
            };
            self.add_piece(c, Square { idx: cs });
        }
    }

    /// Pops the newest undo record and reverses exactly that move, restoring
    /// the prior state bit for bit; with an empty log this is a no-op.
    pub fn undo(&mut self)
        requires
            old(self).wf(),
        ensures
            final(self).wf(),
            old(self)@.hist.len() == 0 ==> final(self)@ == old(self)@,
            old(self)@.hist.len() > 0 ==> final(self)@ == spec_undo(old(self)@),
    {
        let commit_opt = self.move_history.pop();
        match commit_opt {
            None => {},
            Some(commit) => {
                let m = commit.m;
                let cap = commit.captured;
                let p = self.get_at_sq(m.to).unwrap();
                let pcolor = p.get_color();
                match m.move_type {
                    MoveType::Normal => self.undo_normal(m.from, m.to, cap),
                    MoveType::DoublePush => self.undo_double_push(m.from, m.to),
                    MoveType::EnPassant => self.undo_en_passant(m.from, m.to, p, cap),
                    MoveType::Castle(castle_type) => self.undo_castle(p, castle_type),
                    MoveType::Promotion(_) => self.undo_promotion(m.from, m.to, p, cap),
                }
                if pcolor == Color::Black {
                    self.fullmove_number = self.fullmove_number - 1;
                }
                self.en_passant_target = commit.ep_target;
                self.castle_flags = CastleFlags {
                    bits: self.castle_flags.bits ^ commit.castledelta.bits,
                };
                self.halfmove_clock = self.halfmove_clock - 1;
                self.toggle_active_color();
                proof {
                    lemma_undo_wf(old(self)@);
                    assert(self@ =~= spec_undo(old(self)@));
                }
            },
        }
    }
}

/// The piece sets of the standard starting array.
pub open spec fn start_boards() -> Boards {
    Boards {
        white_rooks: 0x81u64,
        white_bishops: 0x24u64,
        white_knights: 0x42u64,
        white_kings: 0x10u64,
        white_queens: 0x8u64,
        white_pawns: 0xff00u64,
        black_rooks: 0x8100000000000000u64,
        black_bishops: 0x2400000000000000u64,
        black_knights: 0x4200000000000000u64,
        black_kings: 0x1000000000000000u64,
        black_queens: 0x800000000000000u64,
        black_pawns: 0xff000000000000u64,
    }
}

/// The standard starting position: White to move, all four castle rights,
/// no en-passant target, counters at zero and one, empty undo log.
pub open spec fn start_view() -> BoardView {
    BoardView {
        boards: start_boards(),
        active: Color::White,
        ep: None,
        flags: 0xf,
        half: 0,
        full: 1,
        hist: Seq::empty(),
    }
}

/// Two disjoint words never share a set bit.
proof fn lemma_disjoint_u64(a: u64, b: u64, j: u64)
    by (bit_vector)
    requires
        a & b == 0,
        j < 64,
    ensures
        !(a & (1u64 << j) != 0 && b & (1u64 << j) != 0),
{
}

/// The starting array puts at most one piece on each square.
proof fn lemma_start_wf()
    ensures
        view_wf(start_view()),
{
    let sb = start_boards();
    assert(0x81u64 & 0x24u64 == 0 && 0x81u64 & 0x42u64 == 0 && 0x81u64 & 0x10u64 == 0 && 0x81u64 & 0x8u64 == 0 && 0x81u64 & 0xff00u64 == 0 && 0x81u64 & 0x8100000000000000u64 == 0 && 0x81u64 & 0x2400000000000000u64 == 0 && 0x81u64 & 0x4200000000000000u64 == 0 && 0x81u64 & 0x1000000000000000u64 == 0 && 0x81u64 & 0x800000000000000u64 == 0 && 0x81u64 & 0xff000000000000u64 == 0 && 0x24u64 & 0x81u64 == 0 && 0x24u64 & 0x42u64 == 0 && 0x24u64 & 0x10u64 == 0 && 0x24u64 & 0x8u64 == 0 && 0x24u64 & 0xff00u64 == 0 && 0x24u64 & 0x8100000000000000u64 == 0 && 0x24u64 & 0x2400000000000000u64 == 0 && 0x24u64 & 0x4200000000000000u64 == 0 && 0x24u64 & 0x1000000000000000u64 == 0 && 0x24u64 & 0x800000000000000u64 == 0 && 0x24u64 & 0xff000000000000u64 == 0 && 0x42u64 & 0x81u64 == 0 && 0x42u64 & 0x24u64 == 0 && 0x42u64 & 0x10u64 == 0 && 0x42u64 & 0x8u64 == 0 && 0x42u64 & 0xff00u64 == 0 && 0x42u64 & 0x8100000000000000u64 == 0 && 0x42u64 & 0x2400000000000000u64 == 0 && 0x42u64 & 0x4200000000000000u64 == 0 && 0x42u64 & 0x1000000000000000u64 == 0 && 0x42u64 & 0x800000000000000u64 == 0 && 0x42u64 & 0xff000000000000u64 == 0 && 0x10u64 & 0x81u64 == 0 && 0x10u64 & 0x24u64 == 0 && 0x10u64 & 0x42u64 == 0 && 0x10u64 & 0x8u64 == 0 && 0x10u64 & 0xff00u64 == 0 && 0x10u64 & 0x8100000000000000u64 == 0 && 0x10u64 & 0x2400000000000000u64 == 0 && 0x10u64 & 0x4200000000000000u64 == 0 && 0x10u64 & 0x1000000000000000u64 == 0 && 0x10u64 & 0x800000000000000u64 == 0 && 0x10u64 & 0xff000000000000u64 == 0 && 0x8u64 & 0x81u64 == 0 && 0x8u64 & 0x24u64 == 0 && 0x8u64 & 0x42u64 == 0 && 0x8u64 & 0x10u64 == 0 && 0x8u64 & 0xff00u64 == 0 && 0x8u64 & 0x8100000000000000u64 == 0 && 0x8u64 & 0x2400000000000000u64 == 0 && 0x8u64 & 0x4200000000000000u64 == 0 && 0x8u64 & 0x1000000000000000u64 == 0 && 0x8u64 & 0x800000000000000u64 == 0 && 0x8u64 & 0xff000000000000u64 == 0 && 0xff00u64 & 0x81u64 == 0 && 0xff00u64 & 0x24u64 == 0 && 0xff00u64 & 0x42u64 == 0 && 0xff00u64 & 0x10u64 == 0 && 0xff00u64 & 0x8u64 == 0 && 0xff00u64 & 0x8100000000000000u64 == 0 && 0xff00u64 & 0x2400000000000000u64 == 0 && 0xff00u64 & 0x4200000000000000u64 == 0 && 0xff00u64 & 0x1000000000000000u64 == 0 && 0xff00u64 & 0x800000000000000u64 == 0 && 0xff00u64 & 0xff000000000000u64 == 0 && 0x8100000000000000u64 & 0x81u64 == 0 && 0x8100000000000000u64 & 0x24u64 == 0 && 0x8100000000000000u64 & 0x42u64 == 0 && 0x8100000000000000u64 & 0x10u64 == 0 && 0x8100000000000000u64 & 0x8u64 == 0 && 0x8100000000000000u64 & 0xff00u64 == 0 && 0x8100000000000000u64 & 0x2400000000000000u64 == 0 && 0x8100000000000000u64 & 0x4200000000000000u64 == 0 && 0x8100000000000000u64 & 0x1000000000000000u64 == 0 && 0x8100000000000000u64 & 0x800000000000000u64 == 0 && 0x8100000000000000u64 & 0xff000000000000u64 == 0 && 0x2400000000000000u64 & 0x81u64 == 0 && 0x2400000000000000u64 & 0x24u64 == 0 && 0x2400000000000000u64 & 0x42u64 == 0 && 0x2400000000000000u64 & 0x10u64 == 0 && 0x2400000000000000u64 & 0x8u64 == 0 && 0x2400000000000000u64 & 0xff00u64 == 0 && 0x2400000000000000u64 & 0x8100000000000000u64 == 0 && 0x2400000000000000u64 & 0x4200000000000000u64 == 0 && 0x2400000000000000u64 & 0x1000000000000000u64 == 0 && 0x2400000000000000u64 & 0x800000000000000u64 == 0 && 0x2400000000000000u64 & 0xff000000000000u64 == 0 && 0x4200000000000000u64 & 0x81u64 == 0 && 0x4200000000000000u64 & 0x24u64 == 0 && 0x4200000000000000u64 & 0x42u64 == 0 && 0x4200000000000000u64 & 0x10u64 == 0 && 0x4200000000000000u64 & 0x8u64 == 0 && 0x4200000000000000u64 & 0xff00u64 == 0 && 0x4200000000000000u64 & 0x8100000000000000u64 == 0 && 0x4200000000000000u64 & 0x2400000000000000u64 == 0 && 0x4200000000000000u64 & 0x1000000000000000u64 == 0 && 0x4200000000000000u64 & 0x800000000000000u64 == 0 && 0x4200000000000000u64 & 0xff000000000000u64 == 0 && 0x1000000000000000u64 & 0x81u64 == 0 && 0x1000000000000000u64 & 0x24u64 == 0 && 0x1000000000000000u64 & 0x42u64 == 0 && 0x1000000000000000u64 & 0x10u64 == 0 && 0x1000000000000000u64 & 0x8u64 == 0 && 0x1000000000000000u64 & 0xff00u64 == 0 && 0x1000000000000000u64 & 0x8100000000000000u64 == 0 && 0x1000000000000000u64 & 0x2400000000000000u64 == 0 && 0x1000000000000000u64 & 0x4200000000000000u64 == 0 && 0x1000000000000000u64 & 0x800000000000000u64 == 0 && 0x1000000000000000u64 & 0xff000000000000u64 == 0 && 0x800000000000000u64 & 0x81u64 == 0 && 0x800000000000000u64 & 0x24u64 == 0 && 0x800000000000000u64 & 0x42u64 == 0 && 0x800000000000000u64 & 0x10u64 == 0 && 0x800000000000000u64 & 0x8u64 == 0 && 0x800000000000000u64 & 0xff00u64 == 0 && 0x800000000000000u64 & 0x8100000000000000u64 == 0 && 0x800000000000000u64 & 0x2400000000000000u64 == 0 && 0x800000000000000u64 & 0x4200000000000000u64 == 0 && 0x800000000000000u64 & 0x1000000000000000u64 == 0 && 0x800000000000000u64 & 0xff000000000000u64 == 0 && 0xff000000000000u64 & 0x81u64 == 0 && 0xff000000000000u64 & 0x24u64 == 0 && 0xff000000000000u64 & 0x42u64 == 0 && 0xff000000000000u64 & 0x10u64 == 0 && 0xff000000000000u64 & 0x8u64 == 0 && 0xff000000000000u64 & 0xff00u64 == 0 && 0xff000000000000u64 & 0x8100000000000000u64 == 0 && 0xff000000000000u64 & 0x2400000000000000u64 == 0 && 0xff000000000000u64 & 0x4200000000000000u64 == 0 && 0xff000000000000u64 & 0x1000000000000000u64 == 0 && 0xff000000000000u64 & 0x800000000000000u64 == 0) by (bit_vector);
    assert forall|p1: BoardPiece, p2: BoardPiece, sq: u8|
        sq < 64 && #[trigger] claims(sb, p1, sq) && #[trigger] claims(sb, p2, sq) implies p1
        == p2 by {
        reveal(claims);
        if p1 != p2 {
            lemma_disjoint_u64(board_of(sb, p1), board_of(sb, p2), sq as u64);
        }
    }
}

impl Default for BoardConfig {
    /// The standard starting position.
    fn default() -> (r: BoardConfig)
        ensures
            r@ == start_view(),
            r.wf(),
    {
        let r = BoardConfig {
            active_color: Color::White,
            en_passant_target: None,
            castle_flags: CastleFlags { bits: 0xf },
            halfmove_clock: 0,
            fullmove_number: 1,
            white_rooks: 0x81u64,
            white_bishops: 0x24u64,
            white_knights: 0x42u64,
            white_kings: 0x10u64,
            white_queens: 0x8u64,
            white_pawns: 0xff00u64,
            black_rooks: 0x8100000000000000u64,
            black_bishops: 0x2400000000000000u64,
            black_knights: 0x4200000000000000u64,
            black_kings: 0x1000000000000000u64,
            black_queens: 0x800000000000000u64,
            black_pawns: 0xff000000000000u64,
            move_history: MoveHistory::new(),
        };
        proof {
            lemma_start_wf();
            assert(r@ =~= start_view());
        }
        r
    }
}

/// White pieces as one square set.
pub open spec fn spec_white_occ(b: Boards) -> u64 {
    b.white_rooks | b.white_bishops | b.white_knights | b.white_kings | b.white_queens
        | b.white_pawns
}

/// Black pieces as one square set.
pub open spec fn spec_black_occ(b: Boards) -> u64 {
    b.black_rooks | b.black_bishops | b.black_knights | b.black_kings | b.black_queens
        | b.black_pawns
}

impl BoardConfig {
    /// Restores the starting position and clears the undo log.
    pub fn reset(&mut self)
        ensures
            final(self)@ == start_view(),
            final(self).wf(),
    {
        *self = BoardConfig::default();
    }

    pub fn get_active_color(&self) -> (r: Color)
        ensures
            r == self@.active,
    {
        self.active_color
    }

    pub fn get_can_white_castle_queenside(&self) -> (r: bool)
        ensures
            r == crate::castle::can_wq(self@.flags),
    {
        self.castle_flags.can_white_ooo()
    }

    pub fn get_can_white_castle_kingside(&self) -> (r: bool)
        ensures
            r == crate::castle::can_wk(self@.flags),
    {
        self.castle_flags.can_white_oo()
    }

    pub fn get_can_black_castle_queenside(&self) -> (r: bool)
        ensures
            r == crate::castle::can_bq(self@.flags),
    {
        self.castle_flags.can_black_ooo()
    }

    pub fn get_can_black_castle_kingside(&self) -> (r: bool)
        ensures
            r == crate::castle::can_bk(self@.flags),
    {
        self.castle_flags.can_black_oo()
    }

    pub fn get_en_passant_target(&self) -> (r: Option<Square>)
        ensures
            r == self@.ep,
    {
        self.en_passant_target
    }

    pub fn get_halfmove_clock(&self) -> (r: u32)
        ensures
            r == self@.half,
    {
        self.halfmove_clock
    }

    pub fn get_fullmove_number(&self) -> (r: u32)
        ensures
            r == self@.full,
    {
        self.fullmove_number
    }

    /// How many applied moves the undo log currently holds.
    pub fn history_len(&self) -> (r: usize)
        ensures
            r == self@.hist.len(),
    {
        self.move_history.len()
    }

    /// The square set of the piece kind a board-notation letter stands for.
    pub fn get_bit_board(&self, c: char) -> (r: Option<BitBoard>)
        ensures
            r == match crate::piece::spec_piece_from_char(c) {
                Some(p) => Some(BitBoard { bits: board_of(self@.boards, p) }),
                None => None,
            },
    {
        match crate::piece::piece_from_char(c) {
            Some(p) => Some(self.get_piece_occupancy(p)),
            None => None,
        }
    }

    /// The square set of one piece kind.
    pub fn get_piece_occupancy(&self, p: BoardPiece) -> (r: BitBoard)
        ensures
            r.bits == board_of(self@.boards, p),
    {
        match p {
            BoardPiece::WhiteRook => BitBoard { bits: self.white_rooks },
            BoardPiece::WhiteBishop => BitBoard { bits: self.white_bishops },
            BoardPiece::WhiteKnight => BitBoard { bits: self.white_knights },
            BoardPiece::WhiteKing => BitBoard { bits: self.white_kings },
            BoardPiece::WhiteQueen => BitBoard { bits: self.white_queens },
            BoardPiece::WhitePawn => BitBoard { bits: self.white_pawns },
            BoardPiece::BlackRook => BitBoard { bits: self.black_rooks },
            BoardPiece::BlackBishop => BitBoard { bits: self.black_bishops },
            BoardPiece::BlackKnight => BitBoard { bits: self.black_knights },
            BoardPiece::BlackKing => BitBoard { bits: self.black_kings },
            BoardPiece::BlackQueen => BitBoard { bits: self.black_queens },
            BoardPiece::BlackPawn => BitBoard { bits: self.black_pawns },
        }
    }

    /// Every occupied square, of either color.
    pub fn all_occupancy(&self) -> (r: BitBoard)
        ensures
            r.bits == (spec_white_occ(self@.boards) | spec_black_occ(self@.boards)),
    {
        let w: u64 = self.white_rooks | self.white_bishops | self.white_knights
            | self.white_kings | self.white_queens | self.white_pawns;
        let bl: u64 = self.black_rooks | self.black_bishops | self.black_knights
            | self.black_kings | self.black_queens | self.black_pawns;
        BitBoard { bits: w | bl }
    }

    /// Every square occupied by a white piece.
    pub fn white_occupancy(&self) -> (r: BitBoard)
        ensures
            r.bits == spec_white_occ(self@.boards),
    {
        BitBoard {
            bits: self.white_rooks | self.white_bishops | self.white_knights | self.white_kings
                | self.white_queens | self.white_pawns,
        }
    }

    /// Every square occupied by a black piece.
    pub fn black_occupancy(&self) -> (r: BitBoard)
        ensures
            r.bits == spec_black_occ(self@.boards),
    {
        BitBoard {
            bits: self.black_rooks | self.black_bishops | self.black_knights | self.black_kings
                | self.black_queens | self.black_pawns,
        }
    }
}

/// A bare position for the codec to fill: no pieces, White to move, no
/// rights, no en-passant target, counters at zero and one, empty log.
pub(crate) fn empty_position() -> (r: BoardConfig)
    ensures
        r@ == (BoardView {
            boards: crate::fen::empty_boards(),
            active: Color::White,
            ep: None,
            flags: 0,
            half: 0,
            full: 1,
            hist: Seq::empty(),
        }),
{
    let r = BoardConfig {
        active_color: Color::White,
        en_passant_target: None,
        castle_flags: CastleFlags { bits: 0 },
        halfmove_clock: 0,
        fullmove_number: 1,
        white_rooks: 0,
        white_bishops: 0,
        white_knights: 0,
        white_kings: 0,
        white_queens: 0,
        white_pawns: 0,
        black_rooks: 0,
        black_bishops: 0,
        black_knights: 0,
        black_kings: 0,
        black_queens: 0,
        black_pawns: 0,
        move_history: MoveHistory::new(),
    };
    proof {
        assert(r@ =~= (BoardView {
            boards: crate::fen::empty_boards(),
            active: Color::White,
            ep: None,
            flags: 0,
            half: 0,
            full: 1,
            hist: Seq::empty(),
        }));
    }
    r
}

impl BoardConfig {
    pub(crate) fn set_active(&mut self, c: Color)
        ensures
            final(self)@ == (BoardView { active: c, ..old(self)@ }),
    {
        self.active_color = c;
    }

    pub(crate) fn set_ep(&mut self, ep: Option<Square>)
        ensures
            final(self)@ == (BoardView { ep, ..old(self)@ }),
    {
        self.en_passant_target = ep;
    }

    pub(crate) fn set_castle_bits(&mut self, bits: u8)
        ensures
            final(self)@ == (BoardView { flags: bits, ..old(self)@ }),
    {
        self.castle_flags = CastleFlags { bits };
    }

    pub(crate) fn set_half(&mut self, n: u32)
        ensures
            final(self)@ == (BoardView { half: n, ..old(self)@ }),
    {
        self.halfmove_clock = n;
    }

    pub(crate) fn set_full(&mut self, n: u32)
        ensures
            final(self)@ == (BoardView { full: n, ..old(self)@ }),
    {
        self.fullmove_number = n;
    }
}

} // verus!
