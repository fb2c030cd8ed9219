//! Position setup from Forsyth–Edwards notation.
//!
//! Of the six whitespace-separated fields, piece placement, side to move,
//! halfmove clock and fullmove number are honored; the castling-rights and
//! en-passant fields are accepted but discarded. A malformed side-to-move
//! token is a fatal parse error; a malformed clock token parses as the
//! field's default (halfmove 0, fullmove 1), as the fallible integer
//! parse it mirrors would.

use vstd::prelude::*;
use vstd::string::*;
use crate::bitboard::spec_set_bit;
use crate::coords::{Color, File, Piece, PieceType, Rank, Square};
use crate::position::{board_set, CoreView, Position};
use crate::record::MoveInfo;

verus! {

pub open spec fn spec_is_ws(c: char) -> bool {
    c == ' ' || c == '\t' || c == '\n' || c == '\r'
}

/// The first index at or after `i` that is not whitespace.
pub open spec fn spec_skip_ws(s: Seq<char>, i: int) -> int
    decreases s.len() - i,
{
    if 0 <= i < s.len() && spec_is_ws(s[i]) {
        spec_skip_ws(s, i + 1)
    } else {
        i
    }
}

/// The first index at or after `i` that is whitespace, or the end.
pub open spec fn spec_token_end(s: Seq<char>, i: int) -> int
    decreases s.len() - i,
{
    if 0 <= i < s.len() && !spec_is_ws(s[i]) {
        spec_token_end(s, i + 1)
    } else {
        i
    }
}

pub open spec fn spec_is_digit(c: char) -> bool {
    48 <= c as u32 <= 57
}

/// Accumulate decimal digits over `[i, end)`; any non-digit, or a value
/// past the signed 32-bit maximum, fails the parse.
pub open spec fn spec_parse_digits(s: Seq<char>, i: int, end: int, acc: u32) -> Option<u32>
    decreases end - i,
{
    if i < 0 || i >= end || i >= s.len() {
        Some(acc)
    } else if !spec_is_digit(s[i]) {
        None
    } else {
        let dv = (s[i] as u32 - 48) as u32;
        if acc > 214748364 || (acc == 214748364 && dv > 7) {
            None
        } else {
            spec_parse_digits(s, i + 1, end, (acc * 10 + dv) as u32)
        }
    }
}

/// A clock token: an optional leading plus sign and decimal digits.
/// Anything else — including an empty token or an overflowing value —
/// parses as the field's failure default, mirroring a fallible integer
/// parse whose failure is replaced by that default.
pub open spec fn spec_parse_clock(s: Seq<char>, i: int, end: int, default: u32) -> u32 {
    let start = if 0 <= i < s.len() && i < end && s[i] == '+' {
        i + 1
    } else {
        i
    };
    if start >= end {
        default
    } else {
        match spec_parse_digits(s, start, end, 0) {
            Some(v) => v,
            None => default,
        }
    }
}

/// The running state of placement parsing: the board and occupancy filled
/// so far and the file/rank cursor.
pub ghost struct FillState {
    pub board: Seq<Piece>,
    pub white: u64,
    pub black: u64,
    pub file: File,
    pub rank: Rank,
}

pub open spec fn spec_is_upper(c: char) -> bool {
    65 <= c as u32 <= 90
}

/// Interpret the placement characters of `[i, end)`: `/` starts the next
/// rank down, a digit skips that many files, and a piece letter places
/// its piece (uppercase white, otherwise black) and advances one file.
/// Coordinate arithmetic saturates to sentinels; a placement that runs
/// off the board is silently dropped.
pub open spec fn spec_fill(s: Seq<char>, i: int, end: int, st: FillState) -> FillState
    decreases end - i,
{
    if i < 0 || i >= end || i >= s.len() {
        st
    } else {
        let c = s[i];
        let st2 = if c == '/' {
            FillState { file: File { v: 0 }, rank: st.rank.spec_minus(1), ..st }
        } else if spec_is_digit(c) {
            FillState { file: st.file.spec_plus((c as u32 - 48) as u8), ..st }
        } else {
            let color = if spec_is_upper(c) {
                Color::White
            } else {
                Color::Black
            };
            let sq = Square::spec_make_square(st.file, st.rank);
            let piece = Piece::spec_make_piece(PieceType::spec_make_piece_type(c), color);
            FillState {
                board: board_set(st.board, sq, piece),
                white: if piece != Piece::Empty && color == Color::White {
                    spec_set_bit(st.white, sq)
                } else {
                    st.white
                },
                black: if piece != Piece::Empty && color == Color::Black {
                    spec_set_bit(st.black, sq)
                } else {
                    st.black
                },
                file: st.file.spec_plus(1),
                ..st
            }
        };
        spec_fill(s, i + 1, end, st2)
    }
}

pub open spec fn spec_fill_init() -> FillState {
    FillState {
        board: Seq::new(64, |i: int| Piece::Empty),
        white: 0,
        black: 0,
        file: File { v: 0 },
        rank: Rank { v: 7 },
    }
}

/// The side-to-move token: a missing token defaults to white; exactly
/// `w` or `b` is honored; anything else is fatal.
pub open spec fn spec_parse_side(s: Seq<char>, ts: int, te: int) -> Option<Color> {
    if ts >= s.len() {
        Some(Color::White)
    } else if te == ts + 1 && s[ts] == 'w' {
        Some(Color::White)
    } else if te == ts + 1 && s[ts] == 'b' {
        Some(Color::Black)
    } else {
        None
    }
}

/// The full parse: placement, side to move, two discarded tokens, then
/// the two clocks (defaulting to 0 and 1 when missing or malformed).
/// `None` exactly when the side-to-move token is malformed.
pub open spec fn spec_parse_fen(s: Seq<char>) -> Option<CoreView> {
    let ts0 = spec_skip_ws(s, 0);
    let te0 = spec_token_end(s, ts0);
    let st = spec_fill(s, ts0, te0, spec_fill_init());
    let ts1 = spec_skip_ws(s, te0);
    let te1 = spec_token_end(s, ts1);
    match spec_parse_side(s, ts1, te1) {
        None => None,
        Some(side) => {
            let te2 = spec_token_end(s, spec_skip_ws(s, te1));
            let te3 = spec_token_end(s, spec_skip_ws(s, te2));
            let ts4 = spec_skip_ws(s, te3);
            let te4 = spec_token_end(s, ts4);
            let halfmove = if ts4 >= s.len() {
                0u32
            } else {
                spec_parse_clock(s, ts4, te4, 0)
            };
            let ts5 = spec_skip_ws(s, te4);
            let te5 = spec_token_end(s, ts5);
            let fullmove = if ts5 >= s.len() {
                1u32
            } else {
                spec_parse_clock(s, ts5, te5, 1)
            };
            Some(
                CoreView {
                    board: st.board,
                    white: st.white,
                    black: st.black,
                    ep: Square { v: 64 },
                    side,
                    halfmove,
                    fullmove,
                },
            )
        }
    }
}

fn skip_ws(s: &str, i: usize) -> (j: usize)
    requires
        i <= s@.len(),
    ensures
        j == spec_skip_ws(s@, i as int),
        i <= j <= s@.len(),
{
    let n = s.unicode_len();
    let mut j = i;
    loop
        invariant
            i <= j <= n,
            n == s@.len(),
            spec_skip_ws(s@, i as int) == spec_skip_ws(s@, j as int),
        ensures
            i <= j <= n,
            j == spec_skip_ws(s@, i as int),
        decreases n - j,
    {
        if j >= n {
            break;
        }
        let c = s.get_char(j);
        if c == ' ' || c == '\t' || c == '\n' || c == '\r' {
            j = j + 1;
        } else {
            break;
        }
    }
    j
}

fn token_end(s: &str, i: usize) -> (j: usize)
    requires
        i <= s@.len(),
    ensures
        j == spec_token_end(s@, i as int),
        i <= j <= s@.len(),
{
    let n = s.unicode_len();
    let mut j = i;
    loop
        invariant
            i <= j <= n,
            n == s@.len(),
            spec_token_end(s@, i as int) == spec_token_end(s@, j as int),
        ensures
            i <= j <= n,
            j == spec_token_end(s@, i as int),
        decreases n - j,
    {
        if j >= n {
            break;
        }
        let c = s.get_char(j);
        if c == ' ' || c == '\t' || c == '\n' || c == '\r' {
            break;
        } else {
            j = j + 1;
        }
    }
    j
}

fn parse_clock(s: &str, ts: usize, te: usize, default: u32) -> (r: u32)
    requires
        ts <= te <= s@.len(),
    ensures
        r == spec_parse_clock(s@, ts as int, te as int, default),
{
    let mut i = ts;
    if i < te {
        let c = s.get_char(i);
        if c == '+' {
            i = i + 1;
        }
    }
    if i >= te {
        return default;
    }
    let mut acc: u32 = 0;
    let mut failed = false;
    let ghost start = i as int;
    loop
        invariant
            start <= i as int <= te,
            ts <= te <= s@.len(),
            !failed ==> spec_parse_digits(s@, start, te as int, 0) == spec_parse_digits(
                s@,
                i as int,
                te as int,
                acc,
            ),
            failed ==> spec_parse_digits(s@, start, te as int, 0) is None,
        ensures
            failed ==> spec_parse_digits(s@, start, te as int, 0) is None,
            !failed ==> spec_parse_digits(s@, start, te as int, 0) == Some(acc),
        decreases te - i,
    {
        if i >= te {
            break;
        }
        let c = s.get_char(i);
        let d = c as u32;
        if d < 48 || d > 57 {
            failed = true;
            break;
        }
        let dv = d - 48;
        if acc > 214748364 || (acc == 214748364 && dv > 7) {
            failed = true;
            break;
        }
        acc = acc * 10 + dv;
        i = i + 1;
    }
    if failed {
        default
    } else {
        acc
    }
}

impl Position {
    /// Parse a position from Forsyth–Edwards notation; see
    /// `spec_parse_fen` for the exact interpretation. `None` exactly when
    /// the side-to-move token is malformed. The parsed position starts
    /// with empty histories, an empty valid-move cache and empty attacks
    /// boards.
    pub fn new(fen: &str) -> (out: Option<Position>)
        ensures
            out is Some <==> spec_parse_fen(fen@) is Some,
            out matches Some(p) ==> {
                &&& p.wf()
                &&& Some(p.core_view()) == spec_parse_fen(fen@)
                &&& p.move_history@ =~= Seq::<MoveInfo>::empty()
                &&& p.redo_history@ =~= Seq::<MoveInfo>::empty()
                &&& forall|i: int| 0 <= i < 64 ==> p.bitboards.spec_valid_moves()[i] == 0u64
                &&& p.bitboards.attacks_white == 0
                &&& p.bitboards.attacks_black == 0
            },
    {
        let n = fen.unicode_len();
        let ts0 = skip_ws(fen, 0);
        let te0 = token_end(fen, ts0);

        let mut pos = Position::empty();
        let mut file = File { v: 0 };
        let mut rank = Rank { v: 7 };
        let ghost st0 = spec_fill_init();
        proof {
            assert(pos.board@ =~= st0.board);
        }
        let mut i = ts0;
        while i < te0
            invariant
                ts0 <= i <= te0 <= fen@.len(),
                pos.wf(),
                pos.side_to_move == Color::White,
                pos.en_passant_square.v == 64,
                pos.halfmove_clock == 0,
                pos.fullmove_count == 1,
                pos.move_history@ =~= Seq::<MoveInfo>::empty(),
                pos.redo_history@ =~= Seq::<MoveInfo>::empty(),
                pos.bitboards.spec_valid_moves() =~= Seq::new(64, |k: int| 0u64),
                pos.bitboards.attacks_white == 0,
                pos.bitboards.attacks_black == 0,
                spec_fill(fen@, ts0 as int, te0 as int, st0) == spec_fill(
                    fen@,
                    i as int,
                    te0 as int,
                    FillState {
                        board: pos.board@,
                        white: pos.bitboards.checkers_white,
                        black: pos.bitboards.checkers_black,
                        file,
                        rank,
                    },
                ),
            decreases te0 - i,
        {
            let ghost stg = FillState {
                board: pos.board@,
                white: pos.bitboards.checkers_white,
                black: pos.bitboards.checkers_black,
                file,
                rank,
            };
            let c = fen.get_char(i);
            if c == '/' {
                rank = rank.minus(1);
                file = File { v: 0 };
            } else if 48 <= c as u32 && c as u32 <= 57 {
                file = file.plus((c as u32 - 48) as u8);
            } else {
                let color = if 65 <= c as u32 && c as u32 <= 90 {
                    Color::White
                } else {
                    Color::Black
                };
                let sq = Square::make_square(file, rank);
                let piece = Piece::make_piece(PieceType::make_piece_type(c), color);
                if sq.v < 64 {
                    pos.board[sq.v as usize] = piece;
                }
                if piece != Piece::Empty {
                    pos.bitboards.set_checkers(color, sq);
                }
                file = file.plus(1);
            }
            proof {
                let stg2 = FillState {
                    board: pos.board@,
                    white: pos.bitboards.checkers_white,
                    black: pos.bitboards.checkers_black,
                    file,
                    rank,
                };
                assert(spec_fill(fen@, i as int, te0 as int, stg) == spec_fill(
                    fen@,
                    i + 1,
                    te0 as int,
                    stg2,
                ));
            }
            i = i + 1;
        }

        let ts1 = skip_ws(fen, te0);
        let te1 = token_end(fen, ts1);
        let side: Color;
        if ts1 >= n {
            side = Color::White;
        } else if te1 == ts1 + 1 {
            let c = fen.get_char(ts1);
            if c == 'w' {
                side = Color::White;
            } else if c == 'b' {
                side = Color::Black;
            } else {
                return None;
            }
        } else {
            return None;
        }

        let te2 = token_end(fen, skip_ws(fen, te1));
        let te3 = token_end(fen, skip_ws(fen, te2));
        let ts4 = skip_ws(fen, te3);
        let te4 = token_end(fen, ts4);
        let halfmove = if ts4 >= n {
            0
        } else {
            parse_clock(fen, ts4, te4, 0)
        };
        let ts5 = skip_ws(fen, te4);
        let te5 = token_end(fen, ts5);
        let fullmove = if ts5 >= n {
            1
        } else {
            parse_clock(fen, ts5, te5, 1)
        };

        pos.side_to_move = side;
        pos.halfmove_clock = halfmove;
        pos.fullmove_count = fullmove;
        Some(pos)
    }
}



/// The uppercase letter of a file index.
pub open spec fn spec_file_char_upper(f: int) -> char {
    if f == 0 {
        'A'
    } else if f == 1 {
        'B'
    } else if f == 2 {
        'C'
    } else if f == 3 {
        'D'
    } else if f == 4 {
        'E'
    } else if f == 5 {
        'F'
    } else if f == 6 {
        'G'
    } else if f == 7 {
        'H'
    } else {
        '?'
    }
}

/// The digit of a rank index.
pub open spec fn spec_rank_char(r: int) -> char {
    if r == 0 {
        '1'
    } else if r == 1 {
        '2'
    } else if r == 2 {
        '3'
    } else if r == 3 {
        '4'
    } else if r == 4 {
        '5'
    } else if r == 5 {
        '6'
    } else if r == 6 {
        '7'
    } else if r == 7 {
        '8'
    } else {
        '?'
    }
}

/// The name of an on-board square, uppercase file letter then rank digit.
pub open spec fn spec_square_name(sq: Square) -> Seq<char> {
    seq![spec_file_char_upper(sq.v as int % 8), spec_rank_char(sq.v as int / 8)]
}

fn file_str_upper(f: u8) -> (r: &'static str)
    requires
        f < 8,
    ensures
        r@ =~= seq![spec_file_char_upper(f as int)],
{
    proof {
        reveal_strlit("A");
        reveal_strlit("B");
        reveal_strlit("C");
        reveal_strlit("D");
        reveal_strlit("E");
        reveal_strlit("F");
        reveal_strlit("G");
        reveal_strlit("H");
    }
    match f {
        0 => "A",
        1 => "B",
        2 => "C",
        3 => "D",
        4 => "E",
        5 => "F",
        6 => "G",
        _ => "H",
    }
}

fn rank_str(r: u8) -> (out: &'static str)
    requires
        r < 8,
    ensures
        out@ =~= seq![spec_rank_char(r as int)],
{
    proof {
        reveal_strlit("1");
        reveal_strlit("2");
        reveal_strlit("3");
        reveal_strlit("4");
        reveal_strlit("5");
        reveal_strlit("6");
        reveal_strlit("7");
        reveal_strlit("8");
    }
    match r {
        0 => "1",
        1 => "2",
        2 => "3",
        3 => "4",
        4 => "5",
        5 => "6",
        6 => "7",
        _ => "8",
    }
}

impl Position {
    /// The en-passant target as text: the square's name, or `-` when no
    /// target is set.
    pub fn en_passant_square(&self) -> (r: String)
        ensures
            self.en_passant_square.v >= 64 ==> r@ =~= "-"@,
            self.en_passant_square.v < 64 ==> r@ =~= spec_square_name(self.en_passant_square),
    {
        let sq = self.en_passant_square;
        if sq.v < 64 {
            let mut out = String::from_str(file_str_upper(sq.v % 8));
            out.append(rank_str(sq.v / 8));
            out
        } else {
            String::from_str("-")
        }
    }
}

} // verus!
