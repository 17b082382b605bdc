use vstd::prelude::*;

verus! {

/// Bit mask of the white king-side castle right.
pub const WHITE_KINGSIDE: u8 = 1;

/// Bit mask of the white queen-side castle right.
pub const WHITE_QUEENSIDE: u8 = 2;

/// Bit mask of the black king-side castle right.
pub const BLACK_KINGSIDE: u8 = 4;

/// Bit mask of the black queen-side castle right.
pub const BLACK_QUEENSIDE: u8 = 8;

pub open spec fn can_wk(b: u8) -> bool {
    b & WHITE_KINGSIDE != 0
}

pub open spec fn can_wq(b: u8) -> bool {
    b & WHITE_QUEENSIDE != 0
}

pub open spec fn can_bk(b: u8) -> bool {
    b & BLACK_KINGSIDE != 0
}

pub open spec fn can_bq(b: u8) -> bool {
    b & BLACK_QUEENSIDE != 0
}

/// Four independent castle-right flags packed into one byte: white and black,
/// king side and queen side. The raw value composes by bitwise XOR, which the
/// undo machinery uses to record exactly the bits a move cleared.
#[derive(Clone, Copy, Debug, PartialEq, Eq, Structural)]
pub struct CastleFlags {
    pub bits: u8,
}

impl CastleFlags {
    /// Flags with no castle right granted.
    pub fn none() -> (r: CastleFlags)
        ensures
            r.bits == 0,
    {
        CastleFlags { bits: 0 }
    }

    /// Flags with all four castle rights granted.
    pub fn all() -> (r: CastleFlags)
        ensures
            r.bits == 0xf,
    {
        CastleFlags { bits: 0xf }
    }

    pub fn can_white_oo(&self) -> (r: bool)
        ensures
            r == can_wk(self.bits),
    {
        self.bits & WHITE_KINGSIDE != 0
    }

    pub fn set_white_oo(&mut self)
        ensures
            final(self).bits == old(self).bits | WHITE_KINGSIDE,
    {
        self.bits = self.bits | WHITE_KINGSIDE;
    }

    pub fn unset_white_oo(&mut self)
        ensures
            final(self).bits == old(self).bits & !WHITE_KINGSIDE,
    {
        self.bits = self.bits & !WHITE_KINGSIDE;
    }

    pub fn can_white_ooo(&self) -> (r: bool)
        ensures
            r == can_wq(self.bits),
    {
        self.bits & WHITE_QUEENSIDE != 0
    }

    pub fn set_white_ooo(&mut self)
        ensures
            final(self).bits == old(self).bits | WHITE_QUEENSIDE,
    {
        self.bits = self.bits | WHITE_QUEENSIDE;
    }

    pub fn unset_white_ooo(&mut self)
        ensures
            final(self).bits == old(self).bits & !WHITE_QUEENSIDE,
    {
        self.bits = self.bits & !WHITE_QUEENSIDE;
    }

    pub fn can_black_oo(&self) -> (r: bool)
        ensures
            r == can_bk(self.bits),
    {
        self.bits & BLACK_KINGSIDE != 0
    }

    pub fn set_black_oo(&mut self)
        ensures
            final(self).bits == old(self).bits | BLACK_KINGSIDE,
    {
        self.bits = self.bits | BLACK_KINGSIDE;
    }

    pub fn unset_black_oo(&mut self)
        ensures
            final(self).bits == old(self).bits & !BLACK_KINGSIDE,
    {
        self.bits = self.bits & !BLACK_KINGSIDE;
    }

    pub fn can_black_ooo(&self) -> (r: bool)
        ensures
            r == can_bq(self.bits),
    {
        self.bits & BLACK_QUEENSIDE != 0
    }

    pub fn set_black_ooo(&mut self)
        ensures
            final(self).bits == old(self).bits | BLACK_QUEENSIDE,
    {
        self.bits = self.bits | BLACK_QUEENSIDE;
    }

    pub fn unset_black_ooo(&mut self)
        ensures
            final(self).bits == old(self).bits & !BLACK_QUEENSIDE,
    {
        self.bits = self.bits & !BLACK_QUEENSIDE;
    }
}

/// XOR with the same delta twice restores the original flag byte.
pub proof fn lemma_xor_delta_restores(old_bits: u8, new_bits: u8)
    by (bit_vector)
    ensures
        new_bits ^ (new_bits ^ old_bits) == old_bits,
{
}

/// Masking bits off a rights byte can lose rights, never grant one.
pub proof fn lemma_rights_monotone(f: u8, m: u8)
    by (bit_vector)
    ensures
        can_wk(f & !m) ==> can_wk(f),
        can_wq(f & !m) ==> can_wq(f),
        can_bk(f & !m) ==> can_bk(f),
        can_bq(f & !m) ==> can_bq(f),
{
}

/// The low nibble is clear exactly when no castle right is granted.
pub proof fn lemma_low_nibble(f: u8)
    by (bit_vector)
    ensures
        (f & 0xf == 0) == (!can_wk(f) && !can_wq(f) && !can_bk(f) && !can_bq(f)),
{
}

} // verus!
