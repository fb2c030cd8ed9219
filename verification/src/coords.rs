//! Coordinate and piece model: squares, files, ranks, colors, pieces and
//! directions, with saturating, sentinel-returning arithmetic.
//!
//! Off-board results are never an error: arithmetic that leaves the board
//! yields the type's sentinel value (`Square::none`, `File::none`,
//! `Rank::none`), and every consumer checks for it before indexing.

use vstd::prelude::*;

verus! {

/// The kind of a move as classified when it is applied.
#[derive(Clone, Copy, Debug, PartialEq, Eq, Structural)]
pub enum MoveType {
    Invalid,
    Quiet,
    Capture,
    EnPassant,
    TwoSquarePush,
    Promotion,
}

/// A side of the game. `Both` is a neutral value used only for aggregate
/// queries (for example "occupancy of either color"), never as a piece owner.
#[derive(Clone, Copy, Debug, PartialEq, Eq, Structural)]
pub enum Color {
    White,
    Black,
    Both,
}

impl Color {
    /// The side opposed to `self`; the neutral value has no opponent and
    /// maps to `Black`, mirroring the bit trick it replaces.
    pub open spec fn spec_opposite(self) -> Color {
        match self {
            Color::White => Color::Black,
            Color::Black => Color::White,
            Color::Both => Color::Black,
        }
    }

    pub fn opposite(self) -> (r: Color)
        ensures
            r == self.spec_opposite(),
    {
        match self {
            Color::White => Color::Black,
            Color::Black => Color::White,
            Color::Both => Color::Black,
        }
    }
}

/// The kind of a piece, without its color.
#[derive(Clone, Copy, Debug, PartialEq, Eq, Structural)]
pub enum PieceType {
    Empty,
    King,
    Queen,
    Bishop,
    Knight,
    Rook,
    Pawn,
}

impl PieceType {
    /// The piece type a placement character denotes, in either case;
    /// any other character denotes `Empty`.
    pub open spec fn spec_make_piece_type(c: char) -> PieceType {
        if c == 'k' || c == 'K' {
            PieceType::King
        } else if c == 'q' || c == 'Q' {
            PieceType::Queen
        } else if c == 'b' || c == 'B' {
            PieceType::Bishop
        } else if c == 'n' || c == 'N' {
            PieceType::Knight
        } else if c == 'r' || c == 'R' {
            PieceType::Rook
        } else if c == 'p' || c == 'P' {
            PieceType::Pawn
        } else {
            PieceType::Empty
        }
    }

    pub fn make_piece_type(c: char) -> (r: PieceType)
        ensures
            r == PieceType::spec_make_piece_type(c),
    {
        match c {
            'k' | 'K' => PieceType::King,
            'q' | 'Q' => PieceType::Queen,
            'b' | 'B' => PieceType::Bishop,
            'n' | 'N' => PieceType::Knight,
            'r' | 'R' => PieceType::Rook,
            'p' | 'P' => PieceType::Pawn,
            _ => PieceType::Empty,
        }
    }

    /// The algebraic-notation letter of the piece type (pawns have none).
    pub fn make_notation_string(&self) -> (r: &'static str)
        ensures
            *self == PieceType::Pawn ==> r@ == ""@,
            *self == PieceType::King ==> r@ == "K"@,
            *self == PieceType::Queen ==> r@ == "Q"@,
            *self == PieceType::Bishop ==> r@ == "B"@,
            *self == PieceType::Knight ==> r@ == "N"@,
            *self == PieceType::Rook ==> r@ == "R"@,
            *self == PieceType::Empty ==> r@ == "???"@,
    {
        match self {
            PieceType::Pawn => "",
            PieceType::King => "K",
            PieceType::Queen => "Q",
            PieceType::Bishop => "B",
            PieceType::Knight => "N",
            PieceType::Rook => "R",
            PieceType::Empty => "???",
        }
    }
}

/// A piece type packed with its color; `Empty` marks a vacant cell.
#[derive(Clone, Copy, Debug, PartialEq, Eq, Structural)]
pub enum Piece {
    Empty,
    WKing,
    WQueen,
    WBishop,
    WKnight,
    WRook,
    WPawn,
    BKing,
    BQueen,
    BBishop,
    BKnight,
    BRook,
    BPawn,
}

impl Piece {
    pub open spec fn spec_make_piece(pt: PieceType, c: Color) -> Piece {
        match c {
            Color::White => match pt {
                PieceType::Empty => Piece::Empty,
                PieceType::King => Piece::WKing,
                PieceType::Queen => Piece::WQueen,
                PieceType::Bishop => Piece::WBishop,
                PieceType::Knight => Piece::WKnight,
                PieceType::Rook => Piece::WRook,
                PieceType::Pawn => Piece::WPawn,
            },
            Color::Black => match pt {
                PieceType::Empty => Piece::Empty,
                PieceType::King => Piece::BKing,
                PieceType::Queen => Piece::BQueen,
                PieceType::Bishop => Piece::BBishop,
                PieceType::Knight => Piece::BKnight,
                PieceType::Rook => Piece::BRook,
                PieceType::Pawn => Piece::BPawn,
            },
            Color::Both => Piece::Empty,
        }
    }

    /// Combine a piece type and a concrete color; the neutral color owns no
    /// piece, so it yields `Empty`.
    pub fn make_piece(pt: PieceType, c: Color) -> (r: Piece)
        ensures
            r == Piece::spec_make_piece(pt, c),
    {
        match c {
            Color::White => match pt {
                PieceType::Empty => Piece::Empty,
                PieceType::King => Piece::WKing,
                PieceType::Queen => Piece::WQueen,
                PieceType::Bishop => Piece::WBishop,
                PieceType::Knight => Piece::WKnight,
                PieceType::Rook => Piece::WRook,
                PieceType::Pawn => Piece::WPawn,
            },
            Color::Black => match pt {
                PieceType::Empty => Piece::Empty,
                PieceType::King => Piece::BKing,
                PieceType::Queen => Piece::BQueen,
                PieceType::Bishop => Piece::BBishop,
                PieceType::Knight => Piece::BKnight,
                PieceType::Rook => Piece::BRook,
                PieceType::Pawn => Piece::BPawn,
            },
            Color::Both => Piece::Empty,
        }
    }

    pub open spec fn spec_color_of(piece: Piece) -> Color {
        match piece {
            Piece::Empty => Color::Both,
            Piece::WKing | Piece::WQueen | Piece::WBishop | Piece::WKnight | Piece::WRook
            | Piece::WPawn => Color::White,
            Piece::BKing | Piece::BQueen | Piece::BBishop | Piece::BKnight | Piece::BRook
            | Piece::BPawn => Color::Black,
        }
    }

    /// The owner of a piece; a vacant cell belongs to neither side.
    pub fn color_of(piece: Piece) -> (r: Color)
        ensures
            r == Piece::spec_color_of(piece),
    {
        match piece {
            Piece::Empty => Color::Both,
            Piece::WKing | Piece::WQueen | Piece::WBishop | Piece::WKnight | Piece::WRook
            | Piece::WPawn => Color::White,
            _ => Color::Black,
        }
    }

    pub open spec fn spec_type_of(piece: Piece) -> PieceType {
        match piece {
            Piece::Empty => PieceType::Empty,
            Piece::WKing | Piece::BKing => PieceType::King,
            Piece::WQueen | Piece::BQueen => PieceType::Queen,
            Piece::WBishop | Piece::BBishop => PieceType::Bishop,
            Piece::WKnight | Piece::BKnight => PieceType::Knight,
            Piece::WRook | Piece::BRook => PieceType::Rook,
            Piece::WPawn | Piece::BPawn => PieceType::Pawn,
        }
    }

    pub fn type_of(piece: Piece) -> (r: PieceType)
        ensures
            r == Piece::spec_type_of(piece),
    {
        match piece {
            Piece::Empty => PieceType::Empty,
            Piece::WKing | Piece::BKing => PieceType::King,
            Piece::WQueen | Piece::BQueen => PieceType::Queen,
            Piece::WBishop | Piece::BBishop => PieceType::Bishop,
            Piece::WKnight | Piece::BKnight => PieceType::Knight,
            Piece::WRook | Piece::BRook => PieceType::Rook,
            Piece::WPawn | Piece::BPawn => PieceType::Pawn,
        }
    }

    /// Numeric code of a piece: the type's ordinal, with the black flag in
    /// bit three, matching the packed encoding the board snapshot exposes.
    pub open spec fn spec_code(piece: Piece) -> int {
        match piece {
            Piece::Empty => 0,
            Piece::WKing => 1,
            Piece::WQueen => 2,
            Piece::WBishop => 3,
            Piece::WKnight => 4,
            Piece::WRook => 5,
            Piece::WPawn => 6,
            Piece::BKing => 9,
            Piece::BQueen => 10,
            Piece::BBishop => 11,
            Piece::BKnight => 12,
            Piece::BRook => 13,
            Piece::BPawn => 14,
        }
    }

    pub fn code(piece: Piece) -> (r: i32)
        ensures
            r == Piece::spec_code(piece),
    {
        match piece {
            Piece::Empty => 0,
            Piece::WKing => 1,
            Piece::WQueen => 2,
            Piece::WBishop => 3,
            Piece::WKnight => 4,
            Piece::WRook => 5,
            Piece::WPawn => 6,
            Piece::BKing => 9,
            Piece::BQueen => 10,
            Piece::BBishop => 11,
            Piece::BKnight => 12,
            Piece::BRook => 13,
            Piece::BPawn => 14,
        }
    }
}

/// A file (column) of the board: 0 is file a, 7 is file h; 8 is the
/// sentinel for off-board results.
#[derive(Clone, Copy, Debug, PartialEq, Eq, Structural)]
pub struct File {
    pub v: u8,
}

impl File {
    /// The off-board sentinel.
    pub fn none() -> (r: File)
        ensures
            r.v == 8,
    {
        File { v: 8 }
    }

    pub fn from_index(v: u8) -> (r: File)
        ensures
            r.v == if v < 8 { v } else { 8u8 },
    {
        if v < 8 {
            File { v }
        } else {
            File { v: 8 }
        }
    }

    /// All eight files in ascending order.
    pub fn iter() -> (r: Vec<File>)
        ensures
            r@.len() == 8,
            forall|i: int| 0 <= i < 8 ==> (#[trigger] r@[i]).v == i,
    {
        let mut out: Vec<File> = Vec::new();
        let mut i: u8 = 0;
        while i < 8
            invariant
                i <= 8,
                out@.len() == i as int,
                forall|j: int| 0 <= j < i as int ==> (#[trigger] out@[j]).v == j,
            decreases 8 - i,
        {
            out.push(File { v: i });
            i = i + 1;
        }
        out
    }

    pub open spec fn spec_plus(self, d: u8) -> File {
        if self.v + d < 8 {
            File { v: (self.v + d) as u8 }
        } else {
            File { v: 8 }
        }
    }

    /// Move `d` files towards h, saturating to the sentinel past the edge.
    pub fn plus(self, d: u8) -> (r: File)
        ensures
            r == self.spec_plus(d),
    {
        if self.v < 8 && d < 8 && self.v + d < 8 {
            File { v: self.v + d }
        } else {
            File { v: 8 }
        }
    }

    pub open spec fn spec_minus(self, d: u8) -> File {
        if self.v < 8 && d <= self.v {
            File { v: (self.v - d) as u8 }
        } else {
            File { v: 8 }
        }
    }

    /// Move `d` files towards a, saturating to the sentinel past the edge.
    pub fn minus(self, d: u8) -> (r: File)
        ensures
            r == self.spec_minus(d),
    {
        if self.v < 8 && d <= self.v {
            File { v: self.v - d }
        } else {
            File { v: 8 }
        }
    }

    /// The file's letter in algebraic notation.
    pub fn make_notation_string(&self) -> (r: &'static str)
        ensures
            self.v == 0 ==> r@ == "a"@,
            self.v == 1 ==> r@ == "b"@,
            self.v == 2 ==> r@ == "c"@,
            self.v == 3 ==> r@ == "d"@,
            self.v == 4 ==> r@ == "e"@,
            self.v == 5 ==> r@ == "f"@,
            self.v == 6 ==> r@ == "g"@,
            self.v == 7 ==> r@ == "h"@,
            self.v >= 8 ==> r@ == "???"@,
    {
        match self.v {
            0 => "a",
            1 => "b",
            2 => "c",
            3 => "d",
            4 => "e",
            5 => "f",
            6 => "g",
            7 => "h",
            _ => "???",
        }
    }
}

/// A rank (row) of the board: 0 is rank 1, 7 is rank 8; 8 is the sentinel
/// for off-board results.
#[derive(Clone, Copy, Debug, PartialEq, Eq, Structural)]
pub struct Rank {
    pub v: u8,
}

impl Rank {
    /// The off-board sentinel.
    pub fn none() -> (r: Rank)
        ensures
            r.v == 8,
    {
        Rank { v: 8 }
    }

    pub fn from_index(v: u8) -> (r: Rank)
        ensures
            r.v == if v < 8 { v } else { 8u8 },
    {
        if v < 8 {
            Rank { v }
        } else {
            Rank { v: 8 }
        }
    }

    pub open spec fn spec_relative_rank(color: Color, rank: Rank) -> Rank {
        match color {
            Color::White => rank,
            Color::Black => if rank.v < 8 {
                Rank { v: (7 - rank.v) as u8 }
            } else {
                Rank { v: 8 }
            },
            Color::Both => Rank { v: 8 },
        }
    }

    /// The rank as seen from `color`'s side: white counts from rank 1,
    /// black from rank 8; the neutral color has no viewpoint.
    pub fn relative_rank(color: Color, rank: Rank) -> (r: Rank)
        ensures
            r == Rank::spec_relative_rank(color, rank),
    {
        match color {
            Color::White => rank,
            Color::Black => if rank.v < 8 {
                Rank { v: 7 - rank.v }
            } else {
                Rank { v: 8 }
            },
            Color::Both => Rank { v: 8 },
        }
    }

    /// All eight ranks in ascending order.
    pub fn iter() -> (r: Vec<Rank>)
        ensures
            r@.len() == 8,
            forall|i: int| 0 <= i < 8 ==> (#[trigger] r@[i]).v == i,
    {
        let mut out: Vec<Rank> = Vec::new();
        let mut i: u8 = 0;
        while i < 8
            invariant
                i <= 8,
                out@.len() == i as int,
                forall|j: int| 0 <= j < i as int ==> (#[trigger] out@[j]).v == j,
            decreases 8 - i,
        {
            out.push(Rank { v: i });
            i = i + 1;
        }
        out
    }

    /// All eight ranks in descending order, rank 8 first.
    pub fn iter_reverse() -> (r: Vec<Rank>)
        ensures
            r@.len() == 8,
            forall|i: int| 0 <= i < 8 ==> (#[trigger] r@[i]).v == 7 - i,
    {
        let mut out: Vec<Rank> = Vec::new();
        let mut i: u8 = 8;
        while i > 0
            invariant
                i <= 8,
                out@.len() == 8 - i as int,
                forall|j: int| 0 <= j < 8 - i as int ==> (#[trigger] out@[j]).v == 7 - j,
            decreases i,
        {
            i = i - 1;
            out.push(Rank { v: i });
        }
        out
    }

    pub open spec fn spec_plus(self, d: u8) -> Rank {
        if self.v + d < 8 {
            Rank { v: (self.v + d) as u8 }
        } else {
            Rank { v: 8 }
        }
    }

    /// Move `d` ranks north, saturating to the sentinel past the edge.
    pub fn plus(self, d: u8) -> (r: Rank)
        ensures
            r == self.spec_plus(d),
    {
        if self.v < 8 && d < 8 && self.v + d < 8 {
            Rank { v: self.v + d }
        } else {
            Rank { v: 8 }
        }
    }

    pub open spec fn spec_minus(self, d: u8) -> Rank {
        if self.v < 8 && d <= self.v {
            Rank { v: (self.v - d) as u8 }
        } else {
            Rank { v: 8 }
        }
    }

    /// Move `d` ranks south, saturating to the sentinel past the edge.
    pub fn minus(self, d: u8) -> (r: Rank)
        ensures
            r == self.spec_minus(d),
    {
        if self.v < 8 && d <= self.v {
            Rank { v: self.v - d }
        } else {
            Rank { v: 8 }
        }
    }

    /// The rank's digit in algebraic notation.
    pub fn make_notation_string(&self) -> (r: &'static str)
        ensures
            self.v == 0 ==> r@ == "1"@,
            self.v == 1 ==> r@ == "2"@,
            self.v == 2 ==> r@ == "3"@,
            self.v == 3 ==> r@ == "4"@,
            self.v == 4 ==> r@ == "5"@,
            self.v == 5 ==> r@ == "6"@,
            self.v == 6 ==> r@ == "7"@,
            self.v == 7 ==> r@ == "8"@,
            self.v >= 8 ==> r@ == "???"@,
    {
        match self.v {
            0 => "1",
            1 => "2",
            2 => "3",
            3 => "4",
            4 => "5",
            5 => "6",
            6 => "7",
            7 => "8",
            _ => "???",
        }
    }
}

/// A board square: 0 is a1, 63 is h8 (rank times eight plus file); 64 is
/// the sentinel for off-board results.
#[derive(Clone, Copy, Debug, PartialEq, Eq, Structural)]
pub struct Square {
    pub v: u8,
}

/// A step of one square in a cardinal direction.
#[derive(Clone, Copy, Debug, PartialEq, Eq, Structural)]
pub enum Direction {
    Invalid,
    North,
    East,
    South,
    West,
}

impl Direction {
    pub open spec fn spec_forward_direction(c: Color) -> Direction {
        match c {
            Color::White => Direction::North,
            Color::Black => Direction::South,
            Color::Both => Direction::Invalid,
        }
    }

    /// The direction a pawn of `c` advances in.
    pub fn forward_direction(c: Color) -> (r: Direction)
        ensures
            r == Direction::spec_forward_direction(c),
    {
        match c {
            Color::White => Direction::North,
            Color::Black => Direction::South,
            Color::Both => Direction::Invalid,
        }
    }
}

impl Square {
    pub open spec fn is_on_board(self) -> bool {
        self.v < 64
    }

    /// The off-board sentinel.
    pub fn none() -> (r: Square)
        ensures
            r.v == 64,
    {
        Square { v: 64 }
    }

    pub fn from_index(v: u8) -> (r: Square)
        ensures
            r.v == if v < 64 { v } else { 64u8 },
    {
        if v < 64 {
            Square { v }
        } else {
            Square { v: 64 }
        }
    }

    pub open spec fn spec_make_square(file: File, rank: Rank) -> Square {
        if file.v < 8 && rank.v < 8 {
            Square { v: (rank.v * 8 + file.v) as u8 }
        } else {
            Square { v: 64 }
        }
    }

    /// The square at a file and rank; either sentinel propagates.
    pub fn make_square(file: File, rank: Rank) -> (r: Square)
        ensures
            r == Square::spec_make_square(file, rank),
    {
        if file.v < 8 && rank.v < 8 {
            Square { v: rank.v * 8 + file.v }
        } else {
            Square { v: 64 }
        }
    }

    pub open spec fn spec_rank_of(sq: Square) -> Rank {
        if sq.v < 64 {
            Rank { v: (sq.v / 8) as u8 }
        } else {
            Rank { v: 8 }
        }
    }

    pub fn rank_of(sq: Square) -> (r: Rank)
        ensures
            r == Square::spec_rank_of(sq),
    {
        if sq.v < 64 {
            Rank { v: sq.v / 8 }
        } else {
            Rank { v: 8 }
        }
    }

    pub open spec fn spec_file_of(sq: Square) -> File {
        if sq.v < 64 {
            File { v: (sq.v % 8) as u8 }
        } else {
            File { v: 8 }
        }
    }

    pub fn file_of(sq: Square) -> (r: File)
        ensures
            r == Square::spec_file_of(sq),
    {
        if sq.v < 64 {
            File { v: sq.v % 8 }
        } else {
            File { v: 8 }
        }
    }

    pub fn is_valid(self) -> (r: bool)
        ensures
            r == self.is_on_board(),
    {
        self.v < 64
    }

    /// All 64 squares in index order, a1 first.
    pub fn iter() -> (r: Vec<Square>)
        ensures
            r@.len() == 64,
            forall|i: int| 0 <= i < 64 ==> (#[trigger] r@[i]).v == i,
    {
        let mut out: Vec<Square> = Vec::new();
        let mut i: u8 = 0;
        while i < 64
            invariant
                i <= 64,
                out@.len() == i as int,
                forall|j: int| 0 <= j < i as int ==> (#[trigger] out@[j]).v == j,
            decreases 64 - i,
        {
            out.push(Square { v: i });
            i = i + 1;
        }
        out
    }

    pub open spec fn spec_step(self, d: Direction) -> Square {
        if self.v >= 64 {
            Square { v: 64 }
        } else {
            match d {
                Direction::North => if self.v + 8 < 64 {
                    Square { v: (self.v + 8) as u8 }
                } else {
                    Square { v: 64 }
                },
                Direction::South => if self.v >= 8 {
                    Square { v: (self.v - 8) as u8 }
                } else {
                    Square { v: 64 }
                },
                Direction::East => if self.v % 8 != 7 {
                    Square { v: (self.v + 1) as u8 }
                } else {
                    Square { v: 64 }
                },
                Direction::West => if self.v % 8 != 0 {
                    Square { v: (self.v - 1) as u8 }
                } else {
                    Square { v: 64 }
                },
                Direction::Invalid => Square { v: 64 },
            }
        }
    }

    /// One step in direction `d`; stepping off the board (past rank 1 or 8,
    /// or wrapping around file a or h) yields the sentinel.
    pub fn step(self, d: Direction) -> (r: Square)
        ensures
            r == self.spec_step(d),
    {
        if self.v >= 64 {
            return Square { v: 64 };
        }
        match d {
            Direction::North => if self.v + 8 < 64 {
                Square { v: self.v + 8 }
            } else {
                Square { v: 64 }
            },
            Direction::South => if self.v >= 8 {
                Square { v: self.v - 8 }
            } else {
                Square { v: 64 }
            },
            Direction::East => if self.v % 8 != 7 {
                Square { v: self.v + 1 }
            } else {
                Square { v: 64 }
            },
            Direction::West => if self.v % 8 != 0 {
                Square { v: self.v - 1 }
            } else {
                Square { v: 64 }
            },
            Direction::Invalid => Square { v: 64 },
        }
    }
}

} // verus!
