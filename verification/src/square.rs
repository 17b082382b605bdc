use crate::text::push_char;
use vstd::prelude::*;

verus! {

/// One of the 64 board cells, numbered rank-major from a1 (index 0) through
/// h1 (7), a2 (8), and so on up to h8 (63).
#[derive(Clone, Copy, Debug, PartialEq, Eq, Structural)]
pub struct Square {
    pub idx: u8,
}

/// The file letter of file number `f` (0 is the a-file).
pub open spec fn file_char(f: u8) -> char {
    match f {
        0u8 => 'a',
        1u8 => 'b',
        2u8 => 'c',
        3u8 => 'd',
        4u8 => 'e',
        5u8 => 'f',
        6u8 => 'g',
        _ => 'h',
    }
}

/// The rank digit of rank number `r` (0 is the first rank).
pub open spec fn rank_char(r: u8) -> char {
    match r {
        0u8 => '1',
        1u8 => '2',
        2u8 => '3',
        3u8 => '4',
        4u8 => '5',
        5u8 => '6',
        6u8 => '7',
        _ => '8',
    }
}

/// Algebraic notation: a file letter `a`-`h` followed by a rank digit
/// `1`-`8`; anything else denotes no square.
pub open spec fn spec_parse_square(fc: char, rc: char) -> Option<Square> {
    if 'a' <= fc && fc <= 'h' && '1' <= rc && rc <= '8' {
        Some(
            Square {
                idx: (((rc as u32 - '1' as u32) * 8 + (fc as u32 - 'a' as u32)) as u8),
            },
        )
    } else {
        None
    }
}

impl Square {
    /// A square index is meaningful only below 64.
    pub open spec fn valid(self) -> bool {
        self.idx < 64
    }

    pub fn new(idx: u8) -> (r: Square)
        requires
            idx < 64,
        ensures
            r.idx == idx,
    {
        Square { idx }
    }

    /// File number, 0 (a-file) through 7 (h-file).
    pub open spec fn spec_file(self) -> u8 {
        self.idx % 8
    }

    /// Rank number, 0 (first rank) through 7 (eighth rank).
    pub open spec fn spec_rank(self) -> u8 {
        self.idx / 8
    }

    pub fn file(self) -> (r: u8)
        ensures
            r == self.spec_file(),
    {
        self.idx % 8
    }

    pub fn rank(self) -> (r: u8)
        ensures
            r == self.spec_rank(),
    {
        self.idx / 8
    }

    /// Parses algebraic notation such as `e4`.
    pub fn from_algebraic(s: &str) -> (r: Option<Square>)
        ensures
            r == (if s@.len() == 2 {
                spec_parse_square(s@[0], s@[1])
            } else {
                Option::<Square>::None
            }),
    {
        let n = s.unicode_len();
        if n != 2 {
            return None;
        }
        let fc = s.get_char(0);
        let rc = s.get_char(1);
        square_from_chars(fc, rc)
    }

    /// Algebraic notation of this square, such as `e4`.
    pub fn algebraic(self) -> (r: String)
        requires
            self.valid(),
        ensures
            r@ == seq![file_char(self.spec_file()), rank_char(self.spec_rank())],
    {
        let mut out = String::new();
        push_char(&mut out, file_char_exec(self.file()));
        push_char(&mut out, rank_char_exec(self.rank()));
        proof {
            assert(out@ =~= seq![file_char(self.spec_file()), rank_char(self.spec_rank())]);
        }
        out
    }
}

/// Builds a square from a file letter and a rank digit.
pub fn square_from_chars(fc: char, rc: char) -> (r: Option<Square>)
    ensures
        r == spec_parse_square(fc, rc),
{
    if 'a' <= fc && fc <= 'h' && '1' <= rc && rc <= '8' {
        let f: u32 = fc as u32 - 'a' as u32;
        let rk: u32 = rc as u32 - '1' as u32;
        Some(Square { idx: (rk * 8 + f) as u8 })
    } else {
        None
    }
}

pub fn file_char_exec(f: u8) -> (r: char)
    ensures
        r == file_char(f),
{
    match f {
        0u8 => 'a',
        1u8 => 'b',
        2u8 => 'c',
        3u8 => 'd',
        4u8 => 'e',
        5u8 => 'f',
        6u8 => 'g',
        _ => 'h',
    }
}

pub fn rank_char_exec(r: u8) -> (c: char)
    ensures
        c == rank_char(r),
{
    match r {
        0u8 => '1',
        1u8 => '2',
        2u8 => '3',
        3u8 => '4',
        4u8 => '5',
        5u8 => '6',
        6u8 => '7',
        _ => '8',
    }
}

/// Printing a square in algebraic notation and parsing it back yields the
/// same square.
pub proof fn lemma_square_notation_roundtrip(sq: Square)
    requires
        sq.valid(),
    ensures
        spec_parse_square(file_char(sq.spec_file()), rank_char(sq.spec_rank())) == Some(sq),
{
}

} // verus!
