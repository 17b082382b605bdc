use crate::square::Square;
use vstd::prelude::*;

verus! {

/// Whether bit `i` of `b` is set.
pub open spec fn bitu(b: u64, i: u64) -> bool {
    b & (1u64 << i) != 0
}

/// Whether square index `i` is a member of the 64-bit square set `b`.
pub open spec fn bit(b: u64, i: u8) -> bool {
    bitu(b, i as u64)
}

/// `b` with bit `i` set.
pub open spec fn set_bit(b: u64, i: u8) -> u64 {
    b | (1u64 << (i as u64))
}

/// `b` with bit `i` cleared.
pub open spec fn clear_bit(b: u64, i: u8) -> u64 {
    b & !(1u64 << (i as u64))
}

/// Setting bit `i` leaves every other bit as it was.
pub proof fn lemma_set_bit(b: u64, i: u64, j: u64)
    by (bit_vector)
    requires
        i < 64,
        j < 64,
    ensures
        bitu(b | (1u64 << i), j) == (i == j || bitu(b, j)),
{
}

/// Clearing bit `i` leaves every other bit as it was.
pub proof fn lemma_clear_bit(b: u64, i: u64, j: u64)
    by (bit_vector)
    requires
        i < 64,
        j < 64,
    ensures
        bitu(b & !(1u64 << i), j) == (i != j && bitu(b, j)),
{
}

/// Clearing a set bit and setting it again restores the word.
pub proof fn lemma_clear_set(b: u64, i: u64)
    by (bit_vector)
    requires
        i < 64,
        b & (1u64 << i) != 0,
    ensures
        (b & !(1u64 << i)) | (1u64 << i) == b,
{
}

/// Moving a bit from `f` to `t` and back restores the word.
pub proof fn lemma_move_undo(b: u64, f: u64, t: u64)
    by (bit_vector)
    requires
        f < 64,
        t < 64,
        f != t,
        b & (1u64 << f) != 0,
        b & (1u64 << t) == 0,
    ensures
        ((((b & !(1u64 << f)) | (1u64 << t)) & !(1u64 << t)) | (1u64 << f)) == b,
{
}

/// Setting a clear bit and clearing it again restores the word.
pub proof fn lemma_set_clear(b: u64, i: u64)
    by (bit_vector)
    requires
        i < 64,
        b & (1u64 << i) == 0,
    ensures
        (b | (1u64 << i)) & !(1u64 << i) == b,
{
}

/// Round trip of a capture by a piece of the same kind: clear the target,
/// move the mover there, then take it all back.
pub proof fn lemma_cap_self(b: u64, f: u64, t: u64)
    by (bit_vector)
    requires
        f < 64,
        t < 64,
        f != t,
        b & (1u64 << f) != 0,
        b & (1u64 << t) != 0,
    ensures
        ((((((b & !(1u64 << t)) & !(1u64 << f)) | (1u64 << t)) & !(1u64 << t)) | (1u64 << f)) | (
        1u64 << t)) == b,
{
}

/// Round trip of an en-passant capture of a pawn of the mover's own kind.
pub proof fn lemma_ep_self(b: u64, f: u64, t: u64, cs: u64)
    by (bit_vector)
    requires
        f < 64,
        t < 64,
        cs < 64,
        f != t,
        cs != t,
        cs != f,
        b & (1u64 << f) != 0,
        b & (1u64 << t) == 0,
        b & (1u64 << cs) != 0,
    ensures
        ((((((b & !(1u64 << f)) | (1u64 << t)) & !(1u64 << cs)) & !(1u64 << t)) | (1u64 << f)) | (
        1u64 << cs)) == b,
{
}

/// Round trip of a castle whose king and rook are pieces of one kind.
pub proof fn lemma_castle_self(b: u64, e: u64, g: u64, h: u64, f: u64)
    by (bit_vector)
    requires
        e < 64,
        g < 64,
        h < 64,
        f < 64,
        e != g,
        e != h,
        e != f,
        g != h,
        g != f,
        h != f,
        b & (1u64 << e) != 0,
        b & (1u64 << h) != 0,
        b & (1u64 << g) == 0,
        b & (1u64 << f) == 0,
    ensures
        ((((((((b & !(1u64 << e)) | (1u64 << g)) & !(1u64 << h)) | (1u64 << f)) & !(1u64 << g)) | (
        1u64 << e)) & !(1u64 << f)) | (1u64 << h)) == b,
{
}

/// Round trip of a promotion that captured a piece of the pawn's own kind:
/// two bits cleared, then both set again.
pub proof fn lemma_two_clear_set(b: u64, t: u64, f: u64)
    by (bit_vector)
    requires
        t < 64,
        f < 64,
        t != f,
        b & (1u64 << t) != 0,
        b & (1u64 << f) != 0,
    ensures
        ((((b & !(1u64 << t)) & !(1u64 << f)) | (1u64 << f)) | (1u64 << t)) == b,
{
}

/// A 64-bit membership set over squares, one per piece kind.
#[derive(Clone, Copy, Debug, PartialEq, Eq, Structural)]
pub struct BitBoard {
    pub bits: u64,
}

impl BitBoard {
    pub fn new(bits: u64) -> (r: BitBoard)
        ensures
            r.bits == bits,
    {
        BitBoard { bits }
    }

    /// Whether `sq` is a member of this set.
    pub fn is_set(&self, sq: Square) -> (r: bool)
        requires
            sq.valid(),
        ensures
            r == bit(self.bits, sq.idx),
    {
        self.bits & (1u64 << (sq.idx as u64)) != 0
    }

    /// The set holding the members of both sets.
    pub fn union(self, other: BitBoard) -> (r: BitBoard)
        ensures
            r.bits == self.bits | other.bits,
    {
        BitBoard { bits: self.bits | other.bits }
    }
}

} // verus!
