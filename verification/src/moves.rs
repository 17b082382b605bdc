use crate::board::BoardConfig;
use crate::board::BoardView;
use crate::board::king_castle_dst;
use crate::board::king_home;
use crate::board::piece_at;
use crate::castle::CastleFlags;
use crate::piece::BoardPiece;
use crate::piece::Color;
use crate::square::Square;
use vstd::prelude::*;

verus! {

/// Which side the king castles toward.
#[derive(Clone, Copy, Debug, PartialEq, Eq, Structural)]
pub enum CastleType {
    KingSide,
    QueenSide,
}

/// The semantic kind of a move, disambiguating the special cases that move
/// application must treat differently.
#[derive(Clone, Copy, Debug, PartialEq, Eq, Structural)]
pub enum MoveType {
    Normal,
    DoublePush,
    EnPassant,
    Castle(CastleType),
    Promotion(Option<BoardPiece>),
}

/// A classified move: origin, destination, and kind.
#[derive(Clone, Copy, Debug, PartialEq, Eq, Structural)]
pub struct Move {
    pub from: Square,
    pub to: Square,
    pub move_type: MoveType,
}

impl Move {
    pub fn new(from: Square, to: Square, move_type: MoveType) -> (r: Move)
        ensures
            r == (Move { from, to, move_type }),
    {
        Move { from, to, move_type }
    }
}

/// Everything one applied move mutated that is not derivable from the move
/// and the resulting board: the captured piece, the en-passant target before
/// the move, and the castle-rights bits that changed, as an XOR delta.
#[derive(Clone, Copy, Debug, PartialEq, Eq, Structural)]
pub struct MoveCommit {
    pub m: Move,
    pub captured: Option<BoardPiece>,
    pub ep_target: Option<Square>,
    pub castledelta: CastleFlags,
}

impl MoveCommit {
    pub fn new(
        m: Move,
        captured: Option<BoardPiece>,
        ep_target: Option<Square>,
        castledelta: CastleFlags,
    ) -> (r: MoveCommit)
        ensures
            r == (MoveCommit { m, captured, ep_target, castledelta }),
    {
        MoveCommit { m, captured, ep_target, castledelta }
    }
}

/// An append/pop-only log of undo records, one per applied move, newest last.
pub struct MoveHistory {
    log: Vec<MoveCommit>,
}

impl View for MoveHistory {
    type V = Seq<MoveCommit>;

    closed spec fn view(&self) -> Seq<MoveCommit> {
        self.log@
    }
}

impl MoveHistory {
    pub fn new() -> (r: MoveHistory)
        ensures
            r@ == Seq::<MoveCommit>::empty(),
    {
        MoveHistory { log: Vec::new() }
    }

    pub fn push(&mut self, c: MoveCommit)
        ensures
            final(self)@ == old(self)@.push(c),
    {
        self.log.push(c);
    }

    pub fn pop(&mut self) -> (r: Option<MoveCommit>)
        ensures
            old(self)@.len() == 0 ==> r is None && final(self)@ == old(self)@,
            old(self)@.len() > 0 ==> r == Some(old(self)@.last()) && final(self)@ == old(
                self,
            )@.drop_last(),
    {
        self.log.pop()
    }

    pub fn len(&self) -> (r: usize)
        ensures
            r == self@.len(),
    {
        self.log.len()
    }
}

/// The move kind that geometry and board content imply for a pawn, king or
/// other piece going from `from` to `to`: a two-rank pawn step is a double
/// push; a diagonal pawn step onto the empty en-passant target square is an
/// en-passant capture; a king stepping two files from its home square is a
/// castle; a pawn reaching its promotion rank promotes, with the target
/// piece left for the caller to supply; anything else is a normal move.
pub open spec fn spec_infer(v: BoardView, from: Square, to: Square) -> MoveType {
    let p = piece_at(v.boards, from.idx)->0;
    let c = p.color();
    if p.is_pawn() && ((c == Color::White && to.idx == from.idx + 16) || (c == Color::Black
        && from.idx == to.idx + 16)) {
        MoveType::DoublePush
    } else if p.is_pawn() && piece_at(v.boards, to.idx) is None && v.ep == Some(to) && ((c
        == Color::White && (to.idx == from.idx + 7 || to.idx == from.idx + 9)) || (c
        == Color::Black && (from.idx == to.idx + 7 || from.idx == to.idx + 9))) {
        MoveType::EnPassant
    } else if p.is_king() && from.idx == king_home(c) && to.idx == king_castle_dst(
        c,
        CastleType::KingSide,
    ) {
        MoveType::Castle(CastleType::KingSide)
    } else if p.is_king() && from.idx == king_home(c) && to.idx == king_castle_dst(
        c,
        CastleType::QueenSide,
    ) {
        MoveType::Castle(CastleType::QueenSide)
    } else if p.is_pawn() && ((c == Color::White && to.idx / 8 == 7) || (c == Color::Black
        && to.idx / 8 == 0)) {
        MoveType::Promotion(None)
    } else {
        MoveType::Normal
    }
}

impl Move {
    /// Classifies the move from `from` to `to` in the given position. The
    /// origin square must be occupied; the caller is responsible for the
    /// pair being geometrically reachable, as this is not a legality check.
    pub fn infer(from: Square, to: Square, c: &BoardConfig) -> (r: Move)
        requires
            from.valid(),
            to.valid(),
            piece_at(c@.boards, from.idx) is Some,
        ensures
            r.from == from,
            r.to == to,
            r.move_type == spec_infer(c@, from, to),
    {
        let p = c.get_at_sq(from).unwrap();
        let pc = p.get_color();
        let pawn = p == BoardPiece::WhitePawn || p == BoardPiece::BlackPawn;
        let king = p == BoardPiece::WhiteKing || p == BoardPiece::BlackKing;
        let ep_here = match c.get_en_passant_target() {
            Some(sq) => sq == to,
            None => false,
        };
        let move_type = if pawn && ((pc == Color::White && to.idx == from.idx + 16) || (pc
            == Color::Black && from.idx == to.idx + 16)) {
            MoveType::DoublePush
        } else if pawn && c.get_at_sq(to).is_none() && ep_here && ((pc == Color::White && (to.idx
            == from.idx + 7 || to.idx == from.idx + 9)) || (pc == Color::Black && (from.idx
            == to.idx + 7 || from.idx == to.idx + 9))) {
            MoveType::EnPassant
        } else if king && from.idx == crate::board::king_home_sq(pc) && to.idx
            == crate::board::king_castle_dst_sq(pc, CastleType::KingSide) {
            MoveType::Castle(CastleType::KingSide)
        } else if king && from.idx == crate::board::king_home_sq(pc) && to.idx
            == crate::board::king_castle_dst_sq(pc, CastleType::QueenSide) {
            MoveType::Castle(CastleType::QueenSide)
        } else if pawn && ((pc == Color::White && to.idx / 8 == 7) || (pc == Color::Black
            && to.idx / 8 == 0)) {
            MoveType::Promotion(None)
        } else {
            MoveType::Normal
        };
        Move { from, to, move_type }
    }
}

} // verus!
