use crate::board::BoardConfig;
use crate::board::BoardView;
use crate::board::Boards;
use crate::board::board_of;
use crate::board::boards_wf;
use crate::board::claims;
use crate::board::lemma_claims_add;
use crate::board::lemma_piece_at_empty_build;
use crate::board::lemma_wf_add;
use crate::board::piece_at;
use crate::castle::BLACK_KINGSIDE;
use crate::castle::BLACK_QUEENSIDE;
use crate::castle::WHITE_KINGSIDE;
use crate::castle::WHITE_QUEENSIDE;
use crate::piece::BoardPiece;
use crate::piece::Color;
use crate::piece::piece_char;
use crate::piece::spec_piece_from_char;
use crate::square::Square;
use crate::square::file_char;
use crate::square::rank_char;
use crate::square::spec_parse_square;
use crate::square::square_from_chars;
use crate::text::push_char;
use vstd::prelude::*;

verus! {

/// Why a board-notation string was rejected.
#[derive(Clone, Copy, Debug, PartialEq, Eq, Structural)]
pub enum FenError {
    /// The piece-placement field is malformed.
    Placement,
    /// The active-color field is not `w` or `b`.
    ActiveColor,
    /// The castle-rights field is not `-` or letters of `KQkq`.
    CastleRights,
    /// The en-passant field is not `-` or an algebraic square.
    EnPassantTarget,
    /// A move counter is missing, not decimal, or out of range.
    Counters,
    /// A separating space is missing, or text trails the six fields.
    Layout,
}

/// Piece sets with no piece anywhere.
pub open spec fn empty_boards() -> Boards {
    Boards {
        white_rooks: 0,
        white_bishops: 0,
        white_knights: 0,
        white_kings: 0,
        white_queens: 0,
        white_pawns: 0,
        black_rooks: 0,
        black_bishops: 0,
        black_knights: 0,
        black_kings: 0,
        black_queens: 0,
        black_pawns: 0,
    }
}

/// Reads the piece-placement field from position `i`: ranks eight down to
/// one separated by `/`, each a mix of piece letters and empty-run digits
/// adding up to eight files. Returns the filled piece sets and the index
/// one past the field.
pub open spec fn spec_parse_placement(
    s: Seq<char>,
    i: int,
    rank: int,
    file: int,
    b: Boards,
) -> Option<(Boards, int)>
    decreases s.len() - i,
{
    if file == 8 {
        if rank == 0 {
            Some((b, i))
        } else if 0 <= i < s.len() && s[i] == '/' {
            spec_parse_placement(s, i + 1, rank - 1, 0, b)
        } else {
            None
        }
    } else if !(0 <= i < s.len()) {
        None
    } else {
        let ch = s[i];
        if '1' <= ch && ch <= '8' {
            let d = ch as int - '0' as int;
            if file + d <= 8 {
                spec_parse_placement(s, i + 1, rank, file + d, b)
            } else {
                None
            }
        } else {
            match spec_piece_from_char(ch) {
                Some(p) => spec_parse_placement(
                    s,
                    i + 1,
                    rank,
                    file + 1,
                    crate::board::spec_add(b, p, (rank * 8 + file) as u8),
                ),
                None => None,
            }
        }
    }
}

/// Reads the active-color field: `w` or `b`.
pub open spec fn spec_parse_color(s: Seq<char>, i: int) -> Option<(Color, int)> {
    if 0 <= i < s.len() && s[i] == 'w' {
        Some((Color::White, i + 1))
    } else if 0 <= i < s.len() && s[i] == 'b' {
        Some((Color::Black, i + 1))
    } else {
        None
    }
}

/// The castle-right bit a letter grants, if any.
pub open spec fn castle_char_bit(c: char) -> Option<u8> {
    match c {
        'K' => Some(WHITE_KINGSIDE),
        'Q' => Some(WHITE_QUEENSIDE),
        'k' => Some(BLACK_KINGSIDE),
        'q' => Some(BLACK_QUEENSIDE),
        _ => None,
    }
}

/// Greedily reads castle-right letters, or-ing their bits together.
pub open spec fn spec_parse_castle_chars(s: Seq<char>, i: int, acc: u8) -> Option<(u8, int)>
    decreases s.len() - i,
{
    if 0 <= i < s.len() && castle_char_bit(s[i]) is Some {
        spec_parse_castle_chars(s, i + 1, acc | castle_char_bit(s[i])->0)
    } else if acc != 0 {
        Some((acc, i))
    } else {
        None
    }
}

/// Reads the castle-rights field: `-` for none, else letters of `KQkq`.
pub open spec fn spec_parse_castle(s: Seq<char>, i: int) -> Option<(u8, int)> {
    if 0 <= i < s.len() && s[i] == '-' {
        Some((0, i + 1))
    } else {
        spec_parse_castle_chars(s, i, 0)
    }
}

/// Reads the en-passant field: `-` for none, else an algebraic square.
pub open spec fn spec_parse_ep(s: Seq<char>, i: int) -> Option<(Option<Square>, int)> {
    if 0 <= i < s.len() && s[i] == '-' {
        Some((None, i + 1))
    } else if 0 <= i && i + 2 <= s.len() {
        match spec_parse_square(s[i], s[i + 1]) {
            Some(sq) => Some((Some(sq), i + 2)),
            None => None,
        }
    } else {
        None
    }
}

/// Greedily reads decimal digits into a counter, rejecting overflow.
pub open spec fn spec_parse_u32_rec(s: Seq<char>, i: int, acc: u32) -> Option<(u32, int)>
    decreases s.len() - i,
{
    if 0 <= i < s.len() && '0' <= s[i] && s[i] <= '9' {
        let d = s[i] as int - '0' as int;
        if acc * 10 + d <= u32::MAX {
            spec_parse_u32_rec(s, i + 1, (acc * 10 + d) as u32)
        } else {
            None
        }
    } else {
        Some((acc, i))
    }
}

/// Reads a decimal counter of at least one digit.
pub open spec fn spec_parse_u32(s: Seq<char>, i: int) -> Option<(u32, int)> {
    if 0 <= i < s.len() && '0' <= s[i] && s[i] <= '9' {
        spec_parse_u32_rec(s, i, 0)
    } else {
        None
    }
}

/// Whether `s[i]` is a single separating space.
pub open spec fn space_at(s: Seq<char>, i: int) -> bool {
    0 <= i < s.len() && s[i] == ' '
}

/// The position a board-notation string describes, if it is well formed:
/// six space-separated fields and nothing after them; the undo log of a
/// loaded position is empty.
pub open spec fn spec_parse_fen(s: Seq<char>) -> Option<BoardView> {
    match spec_parse_placement(s, 0, 7, 0, empty_boards()) {
        None => None,
        Some((b, i1)) => if !space_at(s, i1) {
            None
        } else {
            match spec_parse_color(s, i1 + 1) {
                None => None,
                Some((col, i2)) => if !space_at(s, i2) {
                    None
                } else {
                    match spec_parse_castle(s, i2 + 1) {
                        None => None,
                        Some((fl, i3)) => if !space_at(s, i3) {
                            None
                        } else {
                            match spec_parse_ep(s, i3 + 1) {
                                None => None,
                                Some((ep, i4)) => if !space_at(s, i4) {
                                    None
                                } else {
                                    match spec_parse_u32(s, i4 + 1) {
                                        None => None,
                                        Some((half, i5)) => if !space_at(s, i5) {
                                            None
                                        } else {
                                            match spec_parse_u32(s, i5 + 1) {
                                                None => None,
                                                Some((full, i6)) => if i6 == s.len() {
                                                    Some(
                                                        BoardView {
                                                            boards: b,
                                                            active: col,
                                                            ep,
                                                            flags: fl,
                                                            half,
                                                            full,
                                                            hist: Seq::empty(),
                                                        },
                                                    )
                                                } else {
                                                    None
                                                },
                                            }
                                        },
                                    }
                                },
                            }
                        },
                    }
                },
            }
        },
    }
}

/// Whether square `j` lies in the part of the board a placement scan at
/// (rank, file) has already covered: a higher rank, or an earlier file of
/// the same rank.
pub open spec fn scanned(j: u8, rank: int, file: int) -> bool {
    j / 8 > rank || (j / 8 == rank && (j % 8) < file)
}

/// A placement scan over piece sets that claim only scanned squares yields
/// well-formed piece sets whose claims all lie on the board.
pub proof fn lemma_parse_placement_wf(s: Seq<char>, i: int, rank: int, file: int, b: Boards)
    requires
        0 <= rank <= 7,
        0 <= file <= 8,
        boards_wf(b),
        forall|p: BoardPiece, j: u8| j < 64 && #[trigger] claims(b, p, j) ==> scanned(j, rank, file),
    ensures
        spec_parse_placement(s, i, rank, file, b) matches Some(r) ==> boards_wf(r.0),
    decreases s.len() - i,
{
    if file == 8 {
        if rank == 0 {
        } else if 0 <= i < s.len() && s[i] == '/' {
            assert(forall|p: BoardPiece, j: u8|
                j < 64 && #[trigger] claims(b, p, j) ==> scanned(j, rank - 1, 0));
            lemma_parse_placement_wf(s, i + 1, rank - 1, 0, b);
        }
    } else if !(0 <= i < s.len()) {
    } else {
        let ch = s[i];
        if '1' <= ch && ch <= '8' {
            let d = ch as int - '0' as int;
            if file + d <= 8 {
                lemma_parse_placement_wf(s, i + 1, rank, file + d, b);
            }
        } else {
            match spec_piece_from_char(ch) {
                Some(p) => {
                    let sq = (rank * 8 + file) as u8;
                    assert(!scanned(sq, rank, file));
                    assert(forall|q: BoardPiece| !claims(b, q, sq));
                    lemma_piece_at_empty_build(b, sq);
                    lemma_wf_add(b, p, sq);
                    let b1 = crate::board::spec_add(b, p, sq);
                    assert forall|q: BoardPiece, j: u8|
                        j < 64 && #[trigger] claims(b1, q, j) implies scanned(
                        j,
                        rank,
                        file + 1,
                    ) by {
                        lemma_claims_add(b, p, sq, q, j);
                    }
                    lemma_parse_placement_wf(s, i + 1, rank, file + 1, b1);
                },
                None => {},
            }
        }
    }
}

/// A parsed position is well formed: its piece sets claim each square at
/// most once, a parsed en-passant square is real, and its undo log is empty.
pub proof fn lemma_parse_fen_wf(s: Seq<char>)
    ensures
        spec_parse_fen(s) matches Some(v) ==> crate::board::view_wf(v),
{
    if spec_parse_fen(s) is Some {
        assert forall|p: BoardPiece, j: u8|
            j < 64 && #[trigger] claims(empty_boards(), p, j) implies scanned(j, 7, 0) by {
            reveal(claims);
            lemma_zero_word_empty(j as u64);
        }
        lemma_parse_placement_wf(s, 0, 7, 0, empty_boards());
    }
}

/// The zero word holds no square at all.
proof fn lemma_zero_word_empty(j: u64)
    by (bit_vector)
    requires
        j < 64,
    ensures
        0u64 & (1u64 << j) == 0,
{
}

/// The decimal digit character of `d`.
pub open spec fn digit_char(d: int) -> char {
    if d == 0 {
        '0'
    } else if d == 1 {
        '1'
    } else if d == 2 {
        '2'
    } else if d == 3 {
        '3'
    } else if d == 4 {
        '4'
    } else if d == 5 {
        '5'
    } else if d == 6 {
        '6'
    } else if d == 7 {
        '7'
    } else if d == 8 {
        '8'
    } else {
        '9'
    }
}

/// `n` written in decimal, most significant digit first.
pub open spec fn spec_ser_u32(n: u32) -> Seq<char>
    decreases n,
{
    if n < 10 {
        seq![digit_char(n as int)]
    } else {
        spec_ser_u32(n / 10).push(digit_char((n % 10) as int))
    }
}

/// One rank of the placement field from file `f` on, with `run` empty
/// squares pending: empty runs become their length as a digit, flushed
/// before each piece and at the end of the rank.
pub open spec fn spec_ser_rank(b: Boards, r: int, f: int, run: int) -> Seq<char>
    decreases 8 - f,
{
    if f >= 8 {
        if run > 0 {
            seq![digit_char(run)]
        } else {
            Seq::empty()
        }
    } else {
        match piece_at(b, (r * 8 + f) as u8) {
            None => spec_ser_rank(b, r, f + 1, run + 1),
            Some(p) => (if run > 0 {
                seq![digit_char(run)]
            } else {
                Seq::empty()
            }).push(piece_char(p)) + spec_ser_rank(b, r, f + 1, 0),
        }
    }
}

/// The placement field: ranks from `r` down to the first, `/`-separated.
pub open spec fn spec_ser_ranks(b: Boards, r: int) -> Seq<char>
    decreases r,
{
    if r <= 0 {
        spec_ser_rank(b, 0, 0, 0)
    } else {
        spec_ser_rank(b, r, 0, 0).push('/') + spec_ser_ranks(b, r - 1)
    }
}

/// The castle-rights field: granted rights in `KQkq` order, or `-`.
pub open spec fn spec_ser_castle(fl: u8) -> Seq<char> {
    if fl & 0xf == 0 {
        seq!['-']
    } else {
        (if crate::castle::can_wk(fl) {
            seq!['K']
        } else {
            Seq::empty()
        }) + (if crate::castle::can_wq(fl) {
            seq!['Q']
        } else {
            Seq::empty()
        }) + (if crate::castle::can_bk(fl) {
            seq!['k']
        } else {
            Seq::empty()
        }) + (if crate::castle::can_bq(fl) {
            seq!['q']
        } else {
            Seq::empty()
        })
    }
}

/// The en-passant field: the target square, or `-`.
pub open spec fn spec_ser_ep(ep: Option<Square>) -> Seq<char> {
    match ep {
        None => seq!['-'],
        Some(sq) => seq![file_char(sq.spec_file()), rank_char(sq.spec_rank())],
    }
}

/// The whole board-notation string of a position: six space-separated
/// fields.
pub open spec fn spec_ser_fen(v: BoardView) -> Seq<char> {
    spec_ser_ranks(v.boards, 7) + seq![' '] + (match v.active {
        Color::White => seq!['w'],
        Color::Black => seq!['b'],
    }) + seq![' '] + spec_ser_castle(v.flags) + seq![' '] + spec_ser_ep(v.ep) + seq![' ']
        + spec_ser_u32(v.half) + seq![' '] + spec_ser_u32(v.full)
}

/// The characters of a string, one by one.
fn chars_of(s: &str) -> (r: Vec<char>)
    ensures
        r@ == s@,
{
    let n = s.unicode_len();
    let mut r: Vec<char> = Vec::new();
    let mut i: usize = 0;
    while i < n
        invariant
            i <= n,
            n == s@.len(),
            r@ == s@.subrange(0, i as int),
        decreases n - i,
    {
        r.push(s.get_char(i));
        i = i + 1;
        proof {
            assert(r@ =~= s@.subrange(0, i as int));
        }
    }
    proof {
        assert(r@ =~= s@);
    }
    r
}

fn parse_placement(v: &Vec<char>, i: usize, rank: u8, file: u8, cfg: &mut BoardConfig) -> (r:
    Option<usize>)
    requires
        rank <= 7,
        file <= 8,
    ensures
        (match spec_parse_placement(v@, i as int, rank as int, file as int, old(cfg)@.boards) {
            None => r is None,
            Some(pr) => r matches Some(ni) && ni == pr.1 && final(cfg)@ == (BoardView {
                boards: pr.0,
                ..old(cfg)@
            }),
        }),
    decreases v@.len() - i,
{
    if file == 8 {
        if rank == 0 {
            return Some(i);
        }
        if i < v.len() && v[i] == '/' {
            return parse_placement(v, i + 1, rank - 1, 0, cfg);
        }
        return None;
    }
    if i >= v.len() {
        return None;
    }
    let ch = v[i];
    if '1' <= ch && ch <= '8' {
        let d: u32 = ch as u32 - '0' as u32;
        if file as u32 + d <= 8 {
            return parse_placement(v, i + 1, rank, file + d as u8, cfg);
        }
        return None;
    }
    match crate::piece::piece_from_char(ch) {
        Some(p) => {
            cfg.add_piece(p, Square::new(rank * 8 + file));
            parse_placement(v, i + 1, rank, file + 1, cfg)
        },
        None => None,
    }
}

fn parse_color(v: &Vec<char>, i: usize) -> (r: Option<(Color, usize)>)
    ensures
        (match spec_parse_color(v@, i as int) {
            None => r is None,
            Some(p) => r matches Some(q) && q.0 == p.0 && q.1 == p.1,
        }),
{
    if i < v.len() && v[i] == 'w' {
        Some((Color::White, i + 1))
    } else if i < v.len() && v[i] == 'b' {
        Some((Color::Black, i + 1))
    } else {
        None
    }
}

fn castle_char_bit_exec(c: char) -> (r: Option<u8>)
    ensures
        r == castle_char_bit(c),
{
    match c {
        'K' => Some(WHITE_KINGSIDE),
        'Q' => Some(WHITE_QUEENSIDE),
        'k' => Some(BLACK_KINGSIDE),
        'q' => Some(BLACK_QUEENSIDE),
        _ => None,
    }
}

fn parse_castle_chars(v: &Vec<char>, i: usize, acc: u8) -> (r: Option<(u8, usize)>)
    ensures
        (match spec_parse_castle_chars(v@, i as int, acc) {
            None => r is None,
            Some(p) => r matches Some(q) && q.0 == p.0 && q.1 == p.1,
        }),
    decreases v@.len() - i,
{
    if i < v.len() {
        if let Some(b) = castle_char_bit_exec(v[i]) {
            return parse_castle_chars(v, i + 1, acc | b);
        }
    }
    if acc != 0 {
        Some((acc, i))
    } else {
        None
    }
}

fn parse_castle(v: &Vec<char>, i: usize) -> (r: Option<(u8, usize)>)
    ensures
        (match spec_parse_castle(v@, i as int) {
            None => r is None,
            Some(p) => r matches Some(q) && q.0 == p.0 && q.1 == p.1,
        }),
{
    if i < v.len() && v[i] == '-' {
        Some((0, i + 1))
    } else {
        parse_castle_chars(v, i, 0)
    }
}

fn parse_ep(v: &Vec<char>, i: usize) -> (r: Option<(Option<Square>, usize)>)
    ensures
        (match spec_parse_ep(v@, i as int) {
            None => r is None,
            Some(p) => r matches Some(q) && q.0 == p.0 && q.1 == p.1,
        }),
{
    if i < v.len() && v[i] == '-' {
        Some((None, i + 1))
    } else if i < v.len() && i + 1 < v.len() {
        match square_from_chars(v[i], v[i + 1]) {
            Some(sq) => Some((Some(sq), i + 2)),
            None => None,
        }
    } else {
        None
    }
}

fn parse_u32_rec(v: &Vec<char>, i: usize, acc: u32) -> (r: Option<(u32, usize)>)
    ensures
        (match spec_parse_u32_rec(v@, i as int, acc) {
            None => r is None,
            Some(p) => r matches Some(q) && q.0 == p.0 && q.1 == p.1,
        }),
    decreases v@.len() - i,
{
    if i < v.len() && '0' <= v[i] && v[i] <= '9' {
        let d: u32 = v[i] as u32 - '0' as u32;
        if acc <= (u32::MAX - d) / 10 {
            parse_u32_rec(v, i + 1, acc * 10 + d)
        } else {
            None
        }
    } else {
        Some((acc, i))
    }
}

fn parse_u32(v: &Vec<char>, i: usize) -> (r: Option<(u32, usize)>)
    ensures
        (match spec_parse_u32(v@, i as int) {
            None => r is None,
            Some(p) => r matches Some(q) && q.0 == p.0 && q.1 == p.1,
        }),
{
    if i < v.len() && '0' <= v[i] && v[i] <= '9' {
        parse_u32_rec(v, i, 0)
    } else {
        None
    }
}

fn digit_char_exec(d: u32) -> (c: char)
    ensures
        c == digit_char(d as int),
{
    if d == 0 {
        '0'
    } else if d == 1 {
        '1'
    } else if d == 2 {
        '2'
    } else if d == 3 {
        '3'
    } else if d == 4 {
        '4'
    } else if d == 5 {
        '5'
    } else if d == 6 {
        '6'
    } else if d == 7 {
        '7'
    } else if d == 8 {
        '8'
    } else {
        '9'
    }
}

fn ser_u32(n: u32, out: &mut String)
    ensures
        final(out)@ == old(out)@ + spec_ser_u32(n),
    decreases n,
{
    if n < 10 {
        push_char(out, digit_char_exec(n));
        proof {
            assert(out@ =~= old(out)@ + spec_ser_u32(n));
        }
    } else {
        ser_u32(n / 10, out);
        push_char(out, digit_char_exec(n % 10));
        proof {
            assert(out@ =~= old(out)@ + spec_ser_u32(n));
        }
    }
}

fn ser_rank(c: &BoardConfig, r: u8, f: u8, run: u8, out: &mut String)
    requires
        r <= 7,
        f <= 8,
        run <= f,
    ensures
        final(out)@ == old(out)@ + spec_ser_rank(c@.boards, r as int, f as int, run as int),
    decreases 8 - f,
{
    if f >= 8 {
        if run > 0 {
            push_char(out, digit_char_exec(run as u32));
        }
        proof {
            assert(out@ =~= old(out)@ + spec_ser_rank(c@.boards, r as int, f as int, run as int));
        }
    } else {
        match c.get_at_sq(Square::new(r * 8 + f)) {
            None => {
                ser_rank(c, r, f + 1, run + 1, out);
            },
            Some(p) => {
                if run > 0 {
                    push_char(out, digit_char_exec(run as u32));
                }
                push_char(out, crate::piece::piece_char_exec(p));
                ser_rank(c, r, f + 1, 0, out);
            },
        }
        proof {
            assert(out@ =~= old(out)@ + spec_ser_rank(c@.boards, r as int, f as int, run as int));
        }
    }
}

fn ser_ranks(c: &BoardConfig, r: u8, out: &mut String)
    requires
        r <= 7,
    ensures
        final(out)@ == old(out)@ + spec_ser_ranks(c@.boards, r as int),
    decreases r,
{
    if r == 0 {
        ser_rank(c, 0, 0, 0, out);
    } else {
        ser_rank(c, r, 0, 0, out);
        push_char(out, '/');
        ser_ranks(c, r - 1, out);
        proof {
            assert(out@ =~= old(out)@ + spec_ser_ranks(c@.boards, r as int));
        }
    }
}

fn ser_castle(c: &BoardConfig, out: &mut String)
    ensures
        final(out)@ == old(out)@ + spec_ser_castle(c@.flags),
{
    let wk = c.get_can_white_castle_kingside();
    let wq = c.get_can_white_castle_queenside();
    let bk = c.get_can_black_castle_kingside();
    let bq = c.get_can_black_castle_queenside();
    proof {
        crate::castle::lemma_low_nibble(c@.flags);
    }
    if !wk && !wq && !bk && !bq {
        push_char(out, '-');
        proof {
            assert(out@ =~= old(out)@ + spec_ser_castle(c@.flags));
        }
    } else {
        if wk {
            push_char(out, 'K');
        }
        if wq {
            push_char(out, 'Q');
        }
        if bk {
            push_char(out, 'k');
        }
        if bq {
            push_char(out, 'q');
        }
        proof {
            assert(out@ =~= old(out)@ + spec_ser_castle(c@.flags));
        }
    }
}

fn ser_ep(ep: Option<Square>, out: &mut String)
    ensures
        final(out)@ == old(out)@ + spec_ser_ep(ep),
{
    match ep {
        None => {
            push_char(out, '-');
        },
        Some(sq) => {
            push_char(out, crate::square::file_char_exec(sq.file()));
            push_char(out, crate::square::rank_char_exec(sq.rank()));
        },
    }
    proof {
        assert(out@ =~= old(out)@ + spec_ser_ep(ep));
    }
}

impl BoardConfig {
    /// Builds the position a board-notation string describes, or says why
    /// the string was rejected. Exactly the strings of [`spec_parse_fen`]
    /// are accepted.
    pub fn from_fen_str(s: &str) -> (r: Result<BoardConfig, FenError>)
        ensures
            spec_parse_fen(s@) matches Some(v) ==> r matches Ok(c) && c@ == v && c.wf(),
            spec_parse_fen(s@) is None ==> r is Err,
    {
        proof {
            lemma_parse_fen_wf(s@);
        }
        let v = chars_of(s);
        let mut cfg = crate::board::empty_position();
        let i1 = match parse_placement(&v, 0, 7, 0, &mut cfg) {
            None => {
                return Err(FenError::Placement);
            },
            Some(i) => i,
        };
        if !(i1 < v.len() && v[i1] == ' ') {
            return Err(FenError::Layout);
        }
        let (col, i2) = match parse_color(&v, i1 + 1) {
            None => {
                return Err(FenError::ActiveColor);
            },
            Some(p) => p,
        };
        cfg.set_active(col);
        if !(i2 < v.len() && v[i2] == ' ') {
            return Err(FenError::Layout);
        }
        let (fl, i3) = match parse_castle(&v, i2 + 1) {
            None => {
                return Err(FenError::CastleRights);
            },
            Some(p) => p,
        };
        cfg.set_castle_bits(fl);
        if !(i3 < v.len() && v[i3] == ' ') {
            return Err(FenError::Layout);
        }
        let (ep, i4) = match parse_ep(&v, i3 + 1) {
            None => {
                return Err(FenError::EnPassantTarget);
            },
            Some(p) => p,
        };
        cfg.set_ep(ep);
        if !(i4 < v.len() && v[i4] == ' ') {
            return Err(FenError::Layout);
        }
        let (half, i5) = match parse_u32(&v, i4 + 1) {
            None => {
                return Err(FenError::Counters);
            },
            Some(p) => p,
        };
        cfg.set_half(half);
        if !(i5 < v.len() && v[i5] == ' ') {
            return Err(FenError::Layout);
        }
        let (full, i6) = match parse_u32(&v, i5 + 1) {
            None => {
                return Err(FenError::Counters);
            },
            Some(p) => p,
        };
        cfg.set_full(full);
        if i6 != v.len() {
            return Err(FenError::Layout);
        }
        proof {
            assert(cfg@ =~= spec_parse_fen(s@)->0);
        }
        Ok(cfg)
    }

    /// Replaces the whole state with the position a board-notation string
    /// describes; a rejected string leaves the state untouched.
    pub fn load_fen(&mut self, s: &str) -> (r: Result<(), FenError>)
        ensures
            spec_parse_fen(s@) matches Some(v)
                ==> r is Ok && final(self)@ == v && final(self).wf(),
            spec_parse_fen(s@) is None ==> r is Err && final(self)@ == old(self)@,
    {
        match BoardConfig::from_fen_str(s) {
            Ok(c) => {
                *self = c;
                Ok(())
            },
            Err(e) => Err(e),
        }
    }

    /// Writes the position as a board-notation string: six space-separated
    /// fields, with empty squares as maximal run-length digits.
    pub fn get_fen(&self) -> (r: String)
        ensures
            r@ == spec_ser_fen(self@),
    {
        let mut out = String::new();
        ser_ranks(self, 7, &mut out);
        push_char(&mut out, ' ');
        match self.get_active_color() {
            Color::White => push_char(&mut out, 'w'),
            Color::Black => push_char(&mut out, 'b'),
        }
        push_char(&mut out, ' ');
        ser_castle(self, &mut out);
        push_char(&mut out, ' ');
        ser_ep(self.get_en_passant_target(), &mut out);
        push_char(&mut out, ' ');
        ser_u32(self.get_halfmove_clock(), &mut out);
        push_char(&mut out, ' ');
        ser_u32(self.get_fullmove_number(), &mut out);
        proof {
            assert(out@ =~= spec_ser_fen(self@));
        }
        out
    }
}

/// Ten to the `k`.
pub open spec fn pow10(k: nat) -> int
    decreases k,
{
    if k == 0 {
        1
    } else {
        10 * pow10((k - 1) as nat)
    }
}

/// A serialized counter is one or more decimal digits, and the counter is
/// smaller than ten to their number.
proof fn lemma_ser_u32_digits(n: u32)
    ensures
        spec_ser_u32(n).len() >= 1,
        forall|j: int|
            0 <= j < spec_ser_u32(n).len() ==> '0' <= #[trigger] spec_ser_u32(n)[j]
                && spec_ser_u32(n)[j] <= '9',
        n < pow10(spec_ser_u32(n).len() as nat),
    decreases n,
{
    if n < 10 {
        assert(pow10(0) == 1);
        assert(pow10(1) == 10);
    } else {
        let m = n / 10;
        lemma_ser_u32_digits(m);
        let lm = spec_ser_u32(m).len();
        let d = n % 10;
        assert(spec_ser_u32(n) == spec_ser_u32(m).push(digit_char(d as int)));
        assert(spec_ser_u32(n).len() == lm + 1);
        assert forall|j: int|
            0 <= j < spec_ser_u32(n).len() implies '0' <= #[trigger] spec_ser_u32(n)[j]
            && spec_ser_u32(n)[j] <= '9' by {
            if j < lm {
                assert(spec_ser_u32(n)[j] == spec_ser_u32(m)[j]);
            } else {
                assert(spec_ser_u32(n)[j] == digit_char(d as int));
            }
        }
        assert(m < pow10(lm as nat));
        assert(n < 10 * pow10(lm as nat)) by (nonlinear_arith)
            requires
                m == n / 10,
                n >= 10,
                m < pow10(lm as nat),
                pow10(lm as nat) >= 1,
        ;
        assert(pow10((lm + 1) as nat) == 10 * pow10(lm as nat));
    }
}

/// Ten to any power is positive.
proof fn lemma_pow10_pos(k: nat)
    ensures
        pow10(k) >= 1,
    decreases k,
{
    if k > 0 {
        lemma_pow10_pos((k - 1) as nat);
    }
}

/// Scanning the decimal digits of `n` multiplies the accumulator by ten to
/// their number and adds `n`.
proof fn lemma_parse_ser_u32_rec(s: Seq<char>, i: int, n: u32, acc: u32)
    requires
        0 <= i,
        i + spec_ser_u32(n).len() <= s.len(),
        forall|j: int|
            0 <= j < spec_ser_u32(n).len() ==> s[i + j] == #[trigger] spec_ser_u32(n)[j],
        acc * pow10(spec_ser_u32(n).len() as nat) + n <= u32::MAX,
    ensures
        spec_parse_u32_rec(s, i, acc) == spec_parse_u32_rec(
            s,
            i + spec_ser_u32(n).len(),
            (acc * pow10(spec_ser_u32(n).len() as nat) + n) as u32,
        ),
    decreases n,
{
    lemma_ser_u32_digits(n);
    if n < 10 {
        assert(spec_ser_u32(n)[0] == digit_char(n as int));
        assert(s[i] == digit_char(n as int));
        assert(pow10(0) == 1);
        assert(pow10(1) == 10);
        assert(s[i] as int - '0' as int == n);
    } else {
        let m = n / 10;
        let d = n % 10;
        lemma_ser_u32_digits(m);
        let lm = spec_ser_u32(m).len();
        lemma_pow10_pos(lm as nat);
        assert(spec_ser_u32(n) == spec_ser_u32(m).push(digit_char(d as int)));
        assert forall|j: int| 0 <= j < lm implies s[i + j] == #[trigger] spec_ser_u32(m)[j] by {
            assert(spec_ser_u32(n)[j] == spec_ser_u32(m)[j]);
            assert(s[i + j] == spec_ser_u32(n)[j]);
        }
        assert(pow10((lm + 1) as nat) == 10 * pow10(lm as nat));
        assert(acc * pow10(lm as nat) + m <= u32::MAX) by (nonlinear_arith)
            requires
                acc * (10 * pow10(lm as nat)) + n <= u32::MAX,
                m == n / 10,
                d == n % 10,
                n >= 10,
                acc >= 0,
                pow10(lm as nat) >= 1,
        ;
        lemma_parse_ser_u32_rec(s, i, m, acc);
        let acc1 = (acc * pow10(lm as nat) + m) as u32;
        assert(spec_ser_u32(n)[lm as int] == digit_char(d as int));
        assert(s[i + lm] == spec_ser_u32(n)[lm as int]);
        assert(0 <= d <= 9);
        assert(s[i + lm] as int - '0' as int == d);
        assert(acc1 * 10 + d == acc * pow10((lm + 1) as nat) + n) by (nonlinear_arith)
            requires
                acc1 == acc * pow10(lm as nat) + m,
                pow10((lm + 1) as nat) == 10 * pow10(lm as nat),
                n == m * 10 + d,
        ;
        assert(spec_parse_u32_rec(s, i + lm, acc1) == spec_parse_u32_rec(
            s,
            i + lm + 1,
            (acc1 * 10 + d) as u32,
        ));
    }
}

/// A counter written in decimal re-parses to itself: the digits are read
/// back greedily up to the first non-digit.
pub proof fn lemma_counter_roundtrip(s: Seq<char>, i: int, n: u32)
    requires
        0 <= i,
        i + spec_ser_u32(n).len() <= s.len(),
        forall|j: int|
            0 <= j < spec_ser_u32(n).len() ==> s[i + j] == #[trigger] spec_ser_u32(n)[j],
        i + spec_ser_u32(n).len() == s.len() || !('0' <= s[i + spec_ser_u32(n).len()] && s[i
            + spec_ser_u32(n).len()] <= '9'),
    ensures
        spec_parse_u32(s, i) == Some((n, i + spec_ser_u32(n).len())),
{
    lemma_ser_u32_digits(n);
    lemma_pow10_pos(spec_ser_u32(n).len() as nat);
    lemma_parse_ser_u32_rec(s, i, n, 0);
    assert(s[i] == spec_ser_u32(n)[0]);
}

/// A castle-rights byte written as its field re-parses to itself.
pub proof fn lemma_castle_field_roundtrip(s: Seq<char>, i: int, fl: u8)
    requires
        fl < 16,
        0 <= i,
        i + spec_ser_castle(fl).len() <= s.len(),
        forall|j: int|
            0 <= j < spec_ser_castle(fl).len() ==> s[i + j] == #[trigger] spec_ser_castle(fl)[j],
        i + spec_ser_castle(fl).len() == s.len() || castle_char_bit(
            s[i + spec_ser_castle(fl).len()],
        ) is None,
    ensures
        spec_parse_castle(s, i) == Some((fl, i + spec_ser_castle(fl).len())),
{
    assert((fl & 0xf == 0) == (fl == 0) && ((if fl & 1u8 != 0 {
        1u8
    } else {
        0u8
    }) | (if fl & 2u8 != 0 {
        2u8
    } else {
        0u8
    }) | (if fl & 4u8 != 0 {
        4u8
    } else {
        0u8
    }) | (if fl & 8u8 != 0 {
        8u8
    } else {
        0u8
    })) == fl && (0u8 | 1u8) == 1u8 && (0u8 | 2u8) == 2u8 && (0u8 | 4u8) == 4u8 && (0u8 | 8u8)
        == 8u8 && (1u8 | 2u8) == 3u8 && (1u8 | 4u8) == 5u8 && (1u8 | 8u8) == 9u8 && (2u8 | 4u8)
        == 6u8 && (2u8 | 8u8) == 10u8 && (3u8 | 4u8) == 7u8 && (3u8 | 8u8) == 11u8 && (4u8 | 8u8)
        == 12u8 && (5u8 | 8u8) == 13u8 && (6u8 | 8u8) == 14u8 && (7u8 | 8u8) == 15u8 && (0u8 | 0u8)
        == 0u8 && (1u8 | 0u8) == 1u8 && (2u8 | 0u8) == 2u8 && (3u8 | 0u8) == 3u8 && (4u8 | 0u8)
        == 4u8 && (5u8 | 0u8) == 5u8 && (6u8 | 0u8) == 6u8 && (7u8 | 0u8) == 7u8 && (1u8 & 1u8)
        != 0 && (2u8 & 2u8) != 0 && (4u8 & 4u8) != 0 && (8u8 & 8u8) != 0) by (bit_vector)
        requires
            fl < 16,
    ;
    let l = spec_ser_castle(fl);
    if fl == 0 {
        assert(l[0] == '-');
        assert(s[i] == '-');
    } else {
        let wk = crate::castle::can_wk(fl);
        let wq = crate::castle::can_wq(fl);
        let bk = crate::castle::can_bk(fl);
        let bq = crate::castle::can_bq(fl);
        let s0 = if wk {
            seq!['K']
        } else {
            Seq::<char>::empty()
        };
        let s1 = if wq {
            seq!['Q']
        } else {
            Seq::<char>::empty()
        };
        let s2 = if bk {
            seq!['k']
        } else {
            Seq::<char>::empty()
        };
        let s3 = if bq {
            seq!['q']
        } else {
            Seq::<char>::empty()
        };
        assert(l =~= s0 + s1 + s2 + s3);
        let i1 = i + s0.len();
        let i2 = i1 + s1.len();
        let i3 = i2 + s2.len();
        let i4 = i3 + s3.len();
        assert(i4 == i + l.len());
        let a0: u8 = 0;
        let a1: u8 = if wk {
            a0 | 1
        } else {
            a0
        };
        let a2: u8 = if wq {
            a1 | 2
        } else {
            a1
        };
        let a3: u8 = if bk {
            a2 | 4
        } else {
            a2
        };
        let a4: u8 = if bq {
            a3 | 8
        } else {
            a3
        };
        assert(a4 == fl);
        assert(a4 != 0);
        if wk {
            assert(l[0] == 'K');
            assert(s[i] == 'K');
            assert(spec_parse_castle_chars(s, i, a0) == spec_parse_castle_chars(s, i + 1, a0 | 1));
        }
        assert(spec_parse_castle_chars(s, i, a0) == spec_parse_castle_chars(s, i1, a1));
        if wq {
            assert(l[i1 - i] == 'Q');
            assert(s[i1] == 'Q');
            assert(spec_parse_castle_chars(s, i1, a1) == spec_parse_castle_chars(
                s,
                i1 + 1,
                a1 | 2,
            ));
        }
        assert(spec_parse_castle_chars(s, i1, a1) == spec_parse_castle_chars(s, i2, a2));
        if bk {
            assert(l[i2 - i] == 'k');
            assert(s[i2] == 'k');
            assert(spec_parse_castle_chars(s, i2, a2) == spec_parse_castle_chars(
                s,
                i2 + 1,
                a2 | 4,
            ));
        }
        assert(spec_parse_castle_chars(s, i2, a2) == spec_parse_castle_chars(s, i3, a3));
        if bq {
            assert(l[i3 - i] == 'q');
            assert(s[i3] == 'q');
            assert(spec_parse_castle_chars(s, i3, a3) == spec_parse_castle_chars(
                s,
                i3 + 1,
                a3 | 8,
            ));
        }
        assert(spec_parse_castle_chars(s, i3, a3) == spec_parse_castle_chars(s, i4, a4));
        assert(spec_parse_castle_chars(s, i4, a4) == Some((a4, i4)));
        assert(l[0] != '-');
        assert(s[i] != '-');
    }
}

/// The squares of rank `r` from file `f` on, as a mask.
pub open spec fn tail_mask(r: u64, f: u64) -> u64 {
    ((0xffu64 >> f) << f) << ((r * 8) as u64)
}

/// The squares of ranks `r` down to the first, as a mask.
pub open spec fn ranks_mask(r: u64) -> u64 {
    if r >= 7 {
        !0u64
    } else {
        ((1u64 << (((r + 1) * 8) as u64)) - 1) as u64
    }
}

/// The pieces of `b` on rank `r` from file `f` on, added to `acc` in file
/// order: how the placement parser rebuilds a serialized rank.
pub open spec fn scan_rank(acc: Boards, b: Boards, r: int, f: int) -> Boards
    decreases 8 - f,
{
    if f >= 8 {
        acc
    } else {
        match piece_at(b, (r * 8 + f) as u8) {
            None => scan_rank(acc, b, r, f + 1),
            Some(p) => scan_rank(crate::board::spec_add(acc, p, (r * 8 + f) as u8), b, r, f + 1),
        }
    }
}

/// The pieces of `b` on ranks `r` down to the first, added to `acc`.
pub open spec fn scan_ranks(acc: Boards, b: Boards, r: int) -> Boards
    decreases r,
{
    if r <= 0 {
        scan_rank(acc, b, 0, 0)
    } else {
        scan_ranks(scan_rank(acc, b, r, 0), b, r - 1)
    }
}

/// An empty tail of a rank contributes nothing to the mask.
proof fn lemma_tail_mask_done(r: u64)
    by (bit_vector)
    requires
        r < 8,
    ensures
        tail_mask(r, 8) == 0,
{
}

/// Stepping past an empty square keeps the masked piece set.
proof fn lemma_tail_step_empty(bq: u64, r: u64, f: u64)
    by (bit_vector)
    requires
        r < 8,
        f < 8,
        bq & (1u64 << ((r * 8 + f) as u64)) == 0,
    ensures
        bq & tail_mask(r, f) == bq & tail_mask(r, ((f + 1) as u64)),
{
}

/// Stepping past an occupied square moves its bit into the accumulator.
proof fn lemma_tail_step_piece(x: u64, bq: u64, r: u64, f: u64)
    by (bit_vector)
    requires
        r < 8,
        f < 8,
        bq & (1u64 << ((r * 8 + f) as u64)) != 0,
    ensures
        (x | (1u64 << ((r * 8 + f) as u64))) | (bq & tail_mask(r, ((f + 1) as u64))) == x | (bq
            & tail_mask(r, f)),
{
}

/// Scanning one rank ors its slice of each piece set into the accumulator.
proof fn lemma_scan_rank_bits(acc: Boards, b: Boards, r: int, f: int, q: BoardPiece)
    requires
        0 <= r <= 7,
        0 <= f <= 8,
        boards_wf(b),
    ensures
        board_of(scan_rank(acc, b, r, f), q) == board_of(acc, q) | (board_of(b, q) & tail_mask(
            r as u64,
            f as u64,
        )),
    decreases 8 - f,
{
    broadcast use crate::board::lemma_board_of_with;

    let bq = board_of(b, q);
    if f >= 8 {
        lemma_tail_mask_done(r as u64);
        assert(board_of(acc, q) | (bq & 0) == board_of(acc, q)) by (bit_vector);
    } else {
        let sq = (r * 8 + f) as u8;
        crate::board::lemma_claims_bit(b, q, sq);
        match piece_at(b, sq) {
            None => {
                crate::board::lemma_piece_at_none(b, sq);
                lemma_scan_rank_bits(acc, b, r, f + 1, q);
                lemma_tail_step_empty(bq, r as u64, f as u64);
            },
            Some(p) => {
                crate::board::lemma_piece_at_some(b, sq, p);
                let acc1 = crate::board::spec_add(acc, p, sq);
                lemma_scan_rank_bits(acc1, b, r, f + 1, q);
                if q == p {
                    lemma_tail_step_piece(board_of(acc, q), bq, r as u64, f as u64);
                } else {
                    lemma_tail_step_empty(bq, r as u64, f as u64);
                }
            },
        }
    }
}

/// A full rank's slice joins the mask of the ranks below it.
proof fn lemma_ranks_mask_step(x: u64, bq: u64, r: u64)
    by (bit_vector)
    requires
        0 < r < 8,
    ensures
        (x | (bq & tail_mask(r, 0))) | (bq & ranks_mask(((r - 1) as u64))) == x | (bq & ranks_mask(
            r,
        )),
{
}

/// Scanning ranks `r` down to the first collects their slices of each piece
/// set.
proof fn lemma_scan_ranks_bits(acc: Boards, b: Boards, r: int, q: BoardPiece)
    requires
        0 <= r <= 7,
        boards_wf(b),
    ensures
        board_of(scan_ranks(acc, b, r), q) == board_of(acc, q) | (board_of(b, q) & ranks_mask(
            r as u64,
        )),
    decreases r,
{
    let bq = board_of(b, q);
    if r <= 0 {
        lemma_scan_rank_bits(acc, b, 0, 0, q);
        assert(tail_mask(0, 0) == ranks_mask(0)) by (bit_vector);
    } else {
        lemma_scan_rank_bits(acc, b, r, 0, q);
        let acc1 = scan_rank(acc, b, r, 0);
        lemma_scan_ranks_bits(acc1, b, r - 1, q);
        lemma_ranks_mask_step(board_of(acc, q), bq, r as u64);
    }
}

/// Rebuilding every rank of `b` on empty piece sets yields `b` itself.
proof fn lemma_scan_ranks_all(b: Boards)
    requires
        boards_wf(b),
    ensures
        scan_ranks(empty_boards(), b, 7) == b,
{
    assert forall|q: BoardPiece| #[trigger] board_of(scan_ranks(empty_boards(), b, 7), q)
        == board_of(b, q) by {
        lemma_scan_ranks_bits(empty_boards(), b, 7, q);
        let bq = board_of(b, q);
        assert(0u64 | (bq & ranks_mask(7)) == bq) by (bit_vector);
        assert(board_of(empty_boards(), q) == 0);
    }
    crate::board::lemma_boards_eq(scan_ranks(empty_boards(), b, 7), b);
}

/// Scanning from inside a window of empty squares is scanning from its end.
proof fn lemma_scan_window(acc: Boards, b: Boards, r: int, g: int, f: int)
    requires
        0 <= g <= f <= 8,
        forall|k: int| g <= k < f ==> #[trigger] piece_at(b, ((r * 8 + k) as u8)) is None,
    ensures
        scan_rank(acc, b, r, g) == scan_rank(acc, b, r, f),
    decreases f - g,
{
    if g < f {
        assert(piece_at(b, ((r * 8 + g) as u8)) is None);
        lemma_scan_window(acc, b, r, g + 1, f);
    }
}

/// A piece letter names its piece again, and is no digit, slash or dash.
proof fn lemma_piece_char_facts(p: BoardPiece)
    ensures
        spec_piece_from_char(piece_char(p)) == Some(p),
        !('1' <= piece_char(p) && piece_char(p) <= '8'),
{
}

/// Reading back one serialized rank carries the parser from the start of
/// its pending empty run to the end of the rank, rebuilding its pieces.
proof fn lemma_rank_roundtrip(s: Seq<char>, i: int, b: Boards, r: int, f: int, run: int, acc: Boards)
    requires
        0 <= r <= 7,
        0 <= run <= f <= 8,
        0 <= i,
        i + spec_ser_rank(b, r, f, run).len() <= s.len(),
        forall|j: int|
            0 <= j < spec_ser_rank(b, r, f, run).len() ==> s[i + j] == #[trigger] spec_ser_rank(
                b,
                r,
                f,
                run,
            )[j],
        forall|k: int| f - run <= k < f ==> #[trigger] piece_at(b, ((r * 8 + k) as u8)) is None,
    ensures
        spec_parse_placement(s, i, r, f - run, acc) == spec_parse_placement(
            s,
            i + spec_ser_rank(b, r, f, run).len(),
            r,
            8,
            scan_rank(acc, b, r, f - run),
        ),
    decreases 8 - f,
{
    let l = spec_ser_rank(b, r, f, run);
    if f >= 8 {
        lemma_scan_window(acc, b, r, f - run, 8);
        if run > 0 {
            assert(l[0] == digit_char(run));
            assert(s[i] == digit_char(run));
            assert('1' <= s[i] && s[i] <= '8');
            assert(s[i] as int - '0' as int == run);
            assert(spec_parse_placement(s, i, r, f - run, acc) == spec_parse_placement(
                s,
                i + 1,
                r,
                8,
                acc,
            ));
        }
    } else {
        let sq = (r * 8 + f) as u8;
        match piece_at(b, sq) {
            None => {
                assert(spec_ser_rank(b, r, f + 1, run + 1) == l);
                lemma_rank_roundtrip(s, i, b, r, f + 1, run + 1, acc);
            },
            Some(p) => {
                lemma_piece_char_facts(p);
                let flush = if run > 0 {
                    1int
                } else {
                    0int
                };
                let rest = spec_ser_rank(b, r, f + 1, 0);
                if run > 0 {
                    assert(l =~= seq![digit_char(run)].push(piece_char(p)) + rest);
                    assert(l[0] == digit_char(run));
                    assert(s[i] == digit_char(run));
                    assert(l[1] == piece_char(p));
                    assert(s[i + 1] == piece_char(p));
                } else {
                    assert(l =~= Seq::empty().push(piece_char(p)) + rest);
                    assert(l[0] == piece_char(p));
                    assert(s[i] == piece_char(p));
                }
                assert forall|j: int| 0 <= j < rest.len() implies s[i + flush + 1 + j]
                    == #[trigger] rest[j] by {
                    assert(l[flush + 1 + j] == rest[j]);
                    assert(s[i + (flush + 1 + j)] == l[flush + 1 + j]);
                }
                let acc2 = crate::board::spec_add(acc, p, sq);
                assert(l.len() == flush + 1 + rest.len());
                if run > 0 {
                    assert('1' <= s[i] && s[i] <= '8');
                    assert(s[i] as int - '0' as int == run);
                    assert(spec_parse_placement(s, i, r, f - run, acc) == spec_parse_placement(
                        s,
                        i + 1,
                        r,
                        f,
                        acc,
                    ));
                }
                assert(!('1' <= s[i + flush] && s[i + flush] <= '8'));
                assert(spec_piece_from_char(s[i + flush]) == Some(p));
                assert(spec_parse_placement(s, i + flush, r, f, acc) == spec_parse_placement(
                    s,
                    i + flush + 1,
                    r,
                    f + 1,
                    acc2,
                ));
                lemma_rank_roundtrip(s, i + flush + 1, b, r, f + 1, 0, acc2);
                lemma_scan_window(acc, b, r, f - run, f);
                assert(scan_rank(acc, b, r, f) == scan_rank(acc2, b, r, f + 1));
            },
        }
    }
}

/// Reading back the serialized ranks from `r` down rebuilds their pieces
/// and consumes exactly the placement field.
proof fn lemma_placement_roundtrip(s: Seq<char>, i: int, b: Boards, r: int, acc: Boards)
    requires
        0 <= r <= 7,
        0 <= i,
        i + spec_ser_ranks(b, r).len() <= s.len(),
        forall|j: int|
            0 <= j < spec_ser_ranks(b, r).len() ==> s[i + j] == #[trigger] spec_ser_ranks(b, r)[j],
    ensures
        spec_parse_placement(s, i, r, 0, acc) == Some(
            (scan_ranks(acc, b, r), i + spec_ser_ranks(b, r).len()),
        ),
    decreases r,
{
    let l = spec_ser_ranks(b, r);
    if r <= 0 {
        assert(l == spec_ser_rank(b, 0, 0, 0));
        lemma_rank_roundtrip(s, i, b, 0, 0, 0, acc);
    } else {
        let lr = spec_ser_rank(b, r, 0, 0);
        let rest = spec_ser_ranks(b, r - 1);
        assert(l =~= lr.push('/') + rest);
        assert forall|j: int| 0 <= j < lr.len() implies s[i + j] == #[trigger] lr[j] by {
            assert(l[j] == lr[j]);
        }
        lemma_rank_roundtrip(s, i, b, r, 0, 0, acc);
        let acc1 = scan_rank(acc, b, r, 0);
        assert(l[lr.len() as int] == '/');
        assert(s[i + lr.len()] == '/');
        assert forall|j: int| 0 <= j < rest.len() implies s[i + lr.len() + 1 + j]
            == #[trigger] rest[j] by {
            assert(l[lr.len() + 1 + j] == rest[j]);
            assert(s[i + (lr.len() + 1 + j)] == l[lr.len() + 1 + j]);
        }
        lemma_placement_roundtrip(s, i + lr.len() + 1, b, r - 1, acc1);
    }
}

/// Codec round trip: a well-formed position written as its notation string
/// re-parses to the very same position, with an empty undo log. In
/// particular, for any accepted string, serializing its position and
/// parsing again changes nothing.
pub proof fn lemma_fen_roundtrip(v: BoardView)
    requires
        boards_wf(v.boards),
        crate::board::ep_ok(v.ep),
        v.flags < 16,
    ensures
        spec_parse_fen(spec_ser_fen(v)) == Some(BoardView { hist: Seq::empty(), ..v }),
{
    let s = spec_ser_fen(v);
    let a = spec_ser_ranks(v.boards, 7);
    let c: Seq<char> = match v.active {
        Color::White => seq!['w'],
        Color::Black => seq!['b'],
    };
    let k = spec_ser_castle(v.flags);
    let e = spec_ser_ep(v.ep);
    let h = spec_ser_u32(v.half);
    let fu = spec_ser_u32(v.full);
    let o1 = a.len() as int;
    let o2 = o1 + 1;
    let o3 = o2 + c.len();
    let o4 = o3 + 1;
    let o5 = o4 + k.len();
    let o6 = o5 + 1;
    let o7 = o6 + e.len();
    let o8 = o7 + 1;
    let o9 = o8 + h.len();
    let o10 = o9 + 1;
    assert(s.len() == o10 + fu.len());
    assert(forall|j: int| 0 <= j < a.len() ==> s[j] == #[trigger] a[j]);
    assert(s[o1] == ' ');
    assert(s[o2] == c[0]);
    assert(s[o3] == ' ');
    assert(forall|j: int| 0 <= j < k.len() ==> s[o4 + j] == #[trigger] k[j]);
    assert(s[o5] == ' ');
    assert(forall|j: int| 0 <= j < e.len() ==> s[o6 + j] == #[trigger] e[j]);
    assert(s[o7] == ' ');
    assert(forall|j: int| 0 <= j < h.len() ==> s[o8 + j] == #[trigger] h[j]);
    assert(s[o9] == ' ');
    assert(forall|j: int| 0 <= j < fu.len() ==> s[o10 + j] == #[trigger] fu[j]);
    lemma_placement_roundtrip(s, 0, v.boards, 7, empty_boards());
    lemma_scan_ranks_all(v.boards);
    assert(spec_parse_placement(s, 0, 7, 0, empty_boards()) == Some((v.boards, o1)));
    assert(space_at(s, o1));
    assert(spec_parse_color(s, o2) == Some((v.active, o3)));
    assert(space_at(s, o3));
    lemma_castle_field_roundtrip(s, o4, v.flags);
    assert(spec_parse_castle(s, o4) == Some((v.flags, o5)));
    assert(space_at(s, o5));
    match v.ep {
        None => {
            assert(s[o6] == '-');
            assert(spec_parse_ep(s, o6) == Some((v.ep, o7)));
        },
        Some(sq) => {
            crate::square::lemma_square_notation_roundtrip(sq);
            assert(s[o6] == crate::square::file_char(sq.spec_file()));
            assert(s[o6 + 1] == crate::square::rank_char(sq.spec_rank()));
            assert(s[o6] != '-');
            assert(spec_parse_ep(s, o6) == Some((v.ep, o7)));
        },
    }
    assert(space_at(s, o7));
    lemma_counter_roundtrip(s, o8, v.half);
    assert(spec_parse_u32(s, o8) == Some((v.half, o9)));
    assert(space_at(s, o9));
    lemma_counter_roundtrip(s, o10, v.full);
    assert(spec_parse_u32(s, o10) == Some((v.full, s.len() as int)));
    assert(spec_parse_fen(s) == Some(BoardView { hist: Seq::empty(), ..v }));
}

/// Castle letters only ever grant the four low bits.
proof fn lemma_parse_castle_bound(s: Seq<char>, i: int, acc: u8)
    requires
        acc < 16,
    ensures
        spec_parse_castle_chars(s, i, acc) matches Some(p) ==> p.0 < 16,
    decreases s.len() - i,
{
    if 0 <= i < s.len() && castle_char_bit(s[i]) is Some {
        let b = castle_char_bit(s[i])->0;
        assert(acc | b < 16) by (bit_vector)
            requires
                acc < 16,
                b == 1u8 || b == 2u8 || b == 4u8 || b == 8u8,
        ;
        lemma_parse_castle_bound(s, i + 1, acc | b);
    }
}

/// Serializing a parsed position and parsing again yields the same
/// position: the codec is stable on everything it accepts.
pub proof fn lemma_codec_roundtrip(s: Seq<char>)
    requires
        spec_parse_fen(s) is Some,
    ensures
        spec_parse_fen(spec_ser_fen(spec_parse_fen(s)->0)) == spec_parse_fen(s),
{
    let v = spec_parse_fen(s)->0;
    lemma_parse_fen_wf(s);
    let pr = spec_parse_placement(s, 0, 7, 0, empty_boards())->0;
    let i1 = pr.1;
    let cr = spec_parse_color(s, i1 + 1)->0;
    let i2 = cr.1;
    let kr = spec_parse_castle(s, i2 + 1);
    if 0 <= i2 + 1 < s.len() && s[i2 + 1] == '-' {
    } else {
        lemma_parse_castle_bound(s, i2 + 1, 0);
    }
    assert(v.flags < 16);
    lemma_fen_roundtrip(v);
    assert(BoardView { hist: Seq::empty(), ..v } =~= v);
}

} // verus!
