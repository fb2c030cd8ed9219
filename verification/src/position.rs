//! The position state machine: the board, its occupancy bitboards, the
//! side to move, clocks, en-passant target and the move / redo histories,
//! with move application, undo and redo.
//!
//! `move_piece` accepts a move only if the destination is in the cached
//! valid-move set of the origin, the origin holds a piece of the side to
//! move, and the destination does not hold a friendly piece; anything else
//! is rejected without mutating any state. Every mutation is described
//! exactly by the spec functions `spec_classify`, `spec_apply` and
//! `spec_unapply`.

use vstd::prelude::*;
use crate::bitboard::{
    spec_clear_bit, spec_is_bit_set, spec_set_bit, Bitboards,
};
use crate::coords::{Color, Direction, MoveType, Piece, PieceType, Rank, Square};
use crate::record::MoveInfo;

verus! {

/// The ghost view of the fields that a move changes: board placement,
/// per-color occupancy, en-passant target, side to move and the two
/// clocks. Histories and the valid-move cache are tracked separately.
pub ghost struct CoreView {
    pub board: Seq<Piece>,
    pub white: u64,
    pub black: u64,
    pub ep: Square,
    pub side: Color,
    pub halfmove: u32,
    pub fullmove: u32,
}

/// The piece on `sq`, the sentinel square being empty.
pub open spec fn piece_at(c: CoreView, sq: Square) -> Piece {
    if sq.v < 64 {
        c.board[sq.v as int]
    } else {
        Piece::Empty
    }
}

/// The board with `p` placed on `sq` (unchanged for the sentinel).
pub open spec fn board_set(b: Seq<Piece>, sq: Square, p: Piece) -> Seq<Piece> {
    if sq.v < 64 {
        b.update(sq.v as int, p)
    } else {
        b
    }
}

/// A piece's occupancy bit moved from `from` to `to`.
pub open spec fn spec_move_bits(bb: u64, from: Square, to: Square) -> u64 {
    spec_set_bit(spec_clear_bit(bb, from), to)
}

/// Increment saturating at the type's maximum.
pub open spec fn sat_inc(x: u32) -> u32 {
    if x < 0xFFFF_FFFFu32 {
        (x + 1) as u32
    } else {
        x
    }
}

/// Decrement saturating at zero.
pub open spec fn sat_dec(x: u32) -> u32 {
    if x > 0 {
        (x - 1) as u32
    } else {
        0
    }
}

/// Classify the move `from -> to` from static board and coordinate facts
/// alone: a pawn leaving its relative seventh rank promotes; a pawn push
/// (same file, empty target) from its relative second rank is a two-square
/// push; a move onto an occupied square captures; a pawn moving diagonally
/// onto an empty square captures en passant, its victim standing one step
/// behind the destination; anything else is quiet. The current halfmove
/// clock is snapshotted for undo.
pub open spec fn spec_classify(c: CoreView, from: Square, to: Square) -> MoveInfo {
    let moved = piece_at(c, from);
    let captured0 = piece_at(c, to);
    let base = MoveInfo {
        move_type: MoveType::Quiet,
        from,
        to,
        moved_piece: moved,
        captured_piece: captured0,
        capture_piece_sq: Square { v: 64 },
        halfmove_clock: c.halfmove,
    };
    if Piece::spec_type_of(moved) == PieceType::Pawn {
        let col = Piece::spec_color_of(moved);
        let rr = Rank::spec_relative_rank(col, Square::spec_rank_of(from));
        if rr.v == 6 {
            MoveInfo { move_type: MoveType::Promotion, capture_piece_sq: to, ..base }
        } else if rr.v == 1 && Square::spec_file_of(from) == Square::spec_file_of(to) && captured0
            == Piece::Empty {
            MoveInfo { move_type: MoveType::TwoSquarePush, ..base }
        } else if captured0 != Piece::Empty {
            MoveInfo { move_type: MoveType::Capture, capture_piece_sq: to, ..base }
        } else if Square::spec_file_of(from) != Square::spec_file_of(to) {
            let cs = to.spec_step(Direction::spec_forward_direction(col.spec_opposite()));
            MoveInfo {
                move_type: MoveType::EnPassant,
                captured_piece: piece_at(c, cs),
                capture_piece_sq: cs,
                ..base
            }
        } else {
            base
        }
    } else {
        if captured0 != Piece::Empty {
            MoveInfo { move_type: MoveType::Capture, capture_piece_sq: to, ..base }
        } else {
            base
        }
    }
}

/// The state after applying an accepted move `m`: the piece moves, its
/// occupancy bit follows, the move kind settles captures, the en-passant
/// target of a two-square push, and promotion to a queen of the mover's
/// color; the clocks advance and the side to move flips.
pub open spec fn spec_apply(c: CoreView, m: MoveInfo) -> CoreView {
    let col = Piece::spec_color_of(m.moved_piece);
    let b1 = board_set(board_set(c.board, m.to, m.moved_piece), m.from, Piece::Empty);
    let w1 = if col == Color::White {
        spec_move_bits(c.white, m.from, m.to)
    } else {
        c.white
    };
    let bl1 = if col == Color::Black {
        spec_move_bits(c.black, m.from, m.to)
    } else {
        c.black
    };
    let ccol = Piece::spec_color_of(m.captured_piece);
    let b2 = if m.move_type == MoveType::EnPassant {
        board_set(b1, m.capture_piece_sq, Piece::Empty)
    } else if m.move_type == MoveType::Promotion {
        board_set(b1, m.to, Piece::spec_make_piece(PieceType::Queen, col))
    } else {
        b1
    };
    let clear_captured = m.move_type == MoveType::Capture || m.move_type == MoveType::EnPassant || (
    m.move_type == MoveType::Promotion && ccol != Color::Both);
    let w2 = if clear_captured && ccol == Color::White {
        spec_clear_bit(w1, m.capture_piece_sq)
    } else {
        w1
    };
    let bl2 = if clear_captured && ccol == Color::Black {
        spec_clear_bit(bl1, m.capture_piece_sq)
    } else {
        bl1
    };
    let ep2 = if m.move_type == MoveType::TwoSquarePush {
        m.to.spec_step(Direction::spec_forward_direction(col.spec_opposite()))
    } else {
        Square { v: 64 }
    };
    let fullmove2 = if c.side == Color::Black {
        sat_inc(c.fullmove)
    } else {
        c.fullmove
    };
    let halfmove2 = if m.move_type == MoveType::Capture || Piece::spec_type_of(m.moved_piece)
        == PieceType::Pawn {
        0u32
    } else {
        sat_inc(c.halfmove)
    };
    CoreView {
        board: b2,
        white: w2,
        black: bl2,
        ep: ep2,
        side: c.side.spec_opposite(),
        halfmove: halfmove2,
        fullmove: fullmove2,
    }
}

/// The state after reversing `m`: board and occupancy changes are undone
/// by move kind (an en-passant undo also restores the en-passant target),
/// the halfmove clock is restored from the record's snapshot, the
/// fullmove count steps back after a black move, and the side to move
/// flips back.
pub open spec fn spec_unapply(c: CoreView, m: MoveInfo) -> CoreView {
    let col = Piece::spec_color_of(m.moved_piece);
    let ccol = Piece::spec_color_of(m.captured_piece);
    let b1 = if m.move_type == MoveType::EnPassant {
        board_set(
            board_set(board_set(c.board, m.from, m.moved_piece), m.to, Piece::Empty),
            m.capture_piece_sq,
            m.captured_piece,
        )
    } else {
        board_set(board_set(c.board, m.from, m.moved_piece), m.to, m.captured_piece)
    };
    let w1 = if col == Color::White {
        spec_clear_bit(spec_set_bit(c.white, m.from), m.to)
    } else {
        c.white
    };
    let bl1 = if col == Color::Black {
        spec_clear_bit(spec_set_bit(c.black, m.from), m.to)
    } else {
        c.black
    };
    let rcol = if m.move_type == MoveType::Capture || m.move_type == MoveType::EnPassant {
        col.spec_opposite()
    } else if m.move_type == MoveType::Promotion && ccol != Color::Both {
        ccol
    } else {
        Color::Both
    };
    let w2 = if rcol == Color::White {
        spec_set_bit(w1, m.capture_piece_sq)
    } else {
        w1
    };
    let bl2 = if rcol == Color::Black {
        spec_set_bit(bl1, m.capture_piece_sq)
    } else {
        bl1
    };
    let ep1 = if m.move_type == MoveType::EnPassant {
        m.to
    } else {
        c.ep
    };
    let fullmove1 = if col == Color::Black {
        sat_dec(c.fullmove)
    } else {
        c.fullmove
    };
    CoreView {
        board: b1,
        white: w2,
        black: bl2,
        ep: ep1,
        side: c.side.spec_opposite(),
        halfmove: m.halfmove_clock,
        fullmove: fullmove1,
    }
}

/// A board position with all of its derived state and history.
pub struct Position {
    pub board: Vec<Piece>,
    pub bitboards: Bitboards,
    pub en_passant_square: Square,
    pub move_history: Vec<MoveInfo>,
    pub redo_history: Vec<MoveInfo>,
    pub fullmove_count: u32,
    pub halfmove_clock: u32,
    pub side_to_move: Color,
}

/// Acceptance of `move_piece`: the origin holds a piece of the side to
/// move, the destination is in the origin's cached valid-move set, and
/// the destination does not hold a friendly piece.
pub open spec fn spec_accepted(p: &Position, from: Square, to: Square) -> bool {
    &&& Piece::spec_color_of(piece_at(p.core_view(), from)) == p.side_to_move
    &&& spec_is_bit_set(p.bitboards.spec_valid_moves_at(from), to)
    &&& Piece::spec_color_of(piece_at(p.core_view(), to)) != p.side_to_move
}

/// The auxiliary per-position state a move neither reads nor changes:
/// the cached valid-move bitboards and the attacks boards.
pub open spec fn same_aux(a: &Position, b: &Position) -> bool {
    &&& a.bitboards.spec_valid_moves() == b.bitboards.spec_valid_moves()
    &&& a.bitboards.attacks_white == b.bitboards.attacks_white
    &&& a.bitboards.attacks_black == b.bitboards.attacks_black
}

/// Complete observational equality of two positions.
pub open spec fn same_state(a: &Position, b: &Position) -> bool {
    &&& a.core_view() == b.core_view()
    &&& a.move_history@ == b.move_history@
    &&& a.redo_history@ == b.redo_history@
    &&& same_aux(a, b)
}

impl Position {
    pub open spec fn wf(&self) -> bool {
        &&& self.board@.len() == 64
        &&& self.bitboards.wf()
        &&& self.side_to_move != Color::Both
    }

    pub open spec fn core_view(&self) -> CoreView {
        CoreView {
            board: self.board@,
            white: self.bitboards.checkers_white,
            black: self.bitboards.checkers_black,
            ep: self.en_passant_square,
            side: self.side_to_move,
            halfmove: self.halfmove_clock,
            fullmove: self.fullmove_count,
        }
    }

    /// The all-empty position: no pieces, white to move, clocks at their
    /// game-start values.
    pub fn empty() -> (r: Position)
        ensures
            r.wf(),
            r.board@ =~= Seq::new(64, |i: int| Piece::Empty),
            r.bitboards.checkers_white == 0,
            r.bitboards.checkers_black == 0,
            r.bitboards.attacks_white == 0,
            r.bitboards.attacks_black == 0,
            forall|i: int| 0 <= i < 64 ==> r.bitboards.spec_valid_moves()[i] == 0u64,
            r.en_passant_square.v == 64,
            r.move_history@ =~= Seq::<MoveInfo>::empty(),
            r.redo_history@ =~= Seq::<MoveInfo>::empty(),
            r.fullmove_count == 1,
            r.halfmove_clock == 0,
            r.side_to_move == Color::White,
    {
        let mut board: Vec<Piece> = Vec::new();
        let mut i: usize = 0;
        while i < 64
            invariant
                i <= 64,
                board@.len() == i as int,
                forall|j: int| 0 <= j < i as int ==> board@[j] == Piece::Empty,
            decreases 64 - i,
        {
            board.push(Piece::Empty);
            i = i + 1;
        }
        Position {
            board,
            bitboards: Bitboards::new(),
            en_passant_square: Square { v: 64 },
            move_history: Vec::new(),
            redo_history: Vec::new(),
            fullmove_count: 1,
            halfmove_clock: 0,
            side_to_move: Color::White,
        }
    }

    /// The board snapshot, one piece per square in index order.
    pub fn board_snapshot(&self) -> (r: Vec<Piece>)
        requires
            self.wf(),
        ensures
            r@ == self.board@,
    {
        let mut out: Vec<Piece> = Vec::new();
        let mut i: usize = 0;
        while i < 64
            invariant
                self.wf(),
                i <= 64,
                out@ =~= self.board@.take(i as int),
            decreases 64 - i,
        {
            out.push(self.board[i]);
            proof {
                assert(out@ =~= self.board@.take(i + 1));
            }
            i = i + 1;
        }
        proof {
            assert(self.board@.take(64) =~= self.board@);
        }
        out
    }

    /// The board as numeric piece codes, for consumers outside the rules
    /// core.
    pub fn board_i32(&self) -> (r: Vec<i32>)
        requires
            self.wf(),
        ensures
            r@.len() == 64,
            forall|i: int| 0 <= i < 64 ==> r@[i] == Piece::spec_code(self.board@[i]),
    {
        let mut out: Vec<i32> = Vec::new();
        let mut i: usize = 0;
        while i < 64
            invariant
                self.wf(),
                i <= 64,
                out@.len() == i as int,
                forall|j: int| 0 <= j < i as int ==> out@[j] == Piece::spec_code(self.board@[j]),
            decreases 64 - i,
        {
            out.push(Piece::code(self.board[i]));
            i = i + 1;
        }
        out
    }

    pub fn side_to_move(&self) -> (r: Color)
        ensures
            r == self.side_to_move,
    {
        self.side_to_move
    }

    pub fn halfmove_clock(&self) -> (r: u32)
        ensures
            r == self.halfmove_clock,
    {
        self.halfmove_clock
    }

    pub fn fullmove_count(&self) -> (r: u32)
        ensures
            r == self.fullmove_count,
    {
        self.fullmove_count
    }

    /// The move history so far, oldest first.
    pub fn move_history(&self) -> (r: Vec<MoveInfo>)
        ensures
            r@ == self.move_history@,
    {
        let mut out: Vec<MoveInfo> = Vec::new();
        let mut i: usize = 0;
        while i < self.move_history.len()
            invariant
                i <= self.move_history@.len(),
                out@ =~= self.move_history@.take(i as int),
            decreases self.move_history@.len() - i,
        {
            out.push(self.move_history[i]);
            proof {
                assert(out@ =~= self.move_history@.take(i + 1));
            }
            i = i + 1;
        }
        proof {
            assert(self.move_history@.take(self.move_history@.len() as int)
                =~= self.move_history@);
        }
        out
    }

    /// The most recent record, or the sentinel if no move was made.
    pub fn last_move(&self) -> (r: MoveInfo)
        ensures
            self.move_history@.len() == 0 ==> r == MoveInfo::spec_invalid(),
            self.move_history@.len() > 0 ==> r == self.move_history@.last(),
    {
        if self.move_history.len() > 0 {
            self.move_history[self.move_history.len() - 1]
        } else {
            MoveInfo::invalid()
        }
    }

    /// Whether `from -> to` is playable now: the origin piece belongs to
    /// the side to move and the destination is in the cached valid-move
    /// set of the origin.
    pub fn valid_move(&self, from: Square, to: Square) -> (r: bool)
        requires
            self.wf(),
        ensures
            r == (Piece::spec_color_of(piece_at(self.core_view(), from)) == self.side_to_move
                && spec_is_bit_set(self.bitboards.spec_valid_moves_at(from), to)),
    {
        let piece = if from.v < 64 {
            self.board[from.v as usize]
        } else {
            Piece::Empty
        };
        if Piece::color_of(piece) != self.side_to_move {
            return false;
        }
        self.bitboards.is_valid_move(from, to)
    }

    /// Apply the move `from -> to` if it is accepted, returning its
    /// record; a rejected move returns the sentinel record and leaves the
    /// position fully unchanged. On acceptance the record is the
    /// classification of the move in the pre-move state, the core state
    /// advances by exactly `spec_apply`, the record is appended to the
    /// history, and the redo history is cleared unless this application is
    /// itself a redo.
    pub fn move_piece(&mut self, from: Square, to: Square, clear_redo: bool) -> (m: MoveInfo)
        requires
            old(self).wf(),
        ensures
            final(self).wf(),
            !spec_accepted(old(self), from, to) ==> m == MoveInfo::spec_invalid() && same_state(
                final(self),
                old(self),
            ),
            spec_accepted(old(self), from, to) ==> {
                &&& m == spec_classify(old(self).core_view(), from, to)
                &&& final(self).core_view() == spec_apply(old(self).core_view(), m)
                &&& final(self).move_history@ == old(self).move_history@.push(m)
                &&& final(self).redo_history@ == if clear_redo {
                    Seq::<MoveInfo>::empty()
                } else {
                    old(self).redo_history@
                }
                &&& same_aux(final(self), old(self))
            },
    {
        if !self.valid_move(from, to) {
            return MoveInfo::invalid();
        }
        proof {
            assert(to.v < 64);
        }
        let to_piece = if to.v < 64 {
            self.board[to.v as usize]
        } else {
            Piece::Empty
        };
        if Piece::color_of(to_piece) == self.side_to_move {
            return MoveInfo::invalid();
        }
        proof {
            assert(from.v < 64);
        }

        let move_info = MoveInfo::new(from, to, self);
        let col = Piece::color_of(move_info.moved_piece);

        // the en-passant window lasts exactly one move
        self.en_passant_square = Square { v: 64 };

        self.board[to.v as usize] = move_info.moved_piece;
        self.board[from.v as usize] = Piece::Empty;
        self.bitboards.unset_checkers(col, from);
        self.bitboards.set_checkers(col, to);

        match move_info.move_type {
            MoveType::Capture => {
                let ccol = Piece::color_of(move_info.captured_piece);
                self.bitboards.unset_checkers(ccol, move_info.capture_piece_sq);
            }
            MoveType::TwoSquarePush => {
                let enemy_forward = Direction::forward_direction(col.opposite());
                self.en_passant_square = move_info.to.step(enemy_forward);
            }
            MoveType::EnPassant => {
                let ccol = Piece::color_of(move_info.captured_piece);
                if move_info.capture_piece_sq.v < 64 {
                    self.board[move_info.capture_piece_sq.v as usize] = Piece::Empty;
                }
                self.bitboards.unset_checkers(ccol, move_info.capture_piece_sq);
            }
            MoveType::Promotion => {
                self.board[to.v as usize] = Piece::make_piece(PieceType::Queen, col);
                let ccol = Piece::color_of(move_info.captured_piece);
                if ccol != Color::Both {
                    self.bitboards.unset_checkers(ccol, move_info.capture_piece_sq);
                }
            }
            _ => {}
        }

        if self.side_to_move == Color::Black {
            if self.fullmove_count < 0xFFFF_FFFFu32 {
                self.fullmove_count = self.fullmove_count + 1;
            }
        }

        if move_info.move_type == MoveType::Capture || Piece::type_of(move_info.moved_piece)
            == PieceType::Pawn {
            self.halfmove_clock = 0;
        } else {
            if self.halfmove_clock < 0xFFFF_FFFFu32 {
                self.halfmove_clock = self.halfmove_clock + 1;
            }
        }

        self.side_to_move = self.side_to_move.opposite();
        self.move_history.push(move_info);

        if clear_redo {
            self.redo_history.clear();
        }

        move_info
    }

    /// Reverse the most recent move, if any: board and occupancy changes
    /// are undone by move kind, the halfmove clock is restored from the
    /// record's snapshot, the fullmove count steps back after a black
    /// move, the side to move flips back, and the record moves onto the
    /// redo history. Answers `false`, changing nothing, on an empty
    /// history.
    pub fn undo_move(&mut self) -> (r: bool)
        requires
            old(self).wf(),
        ensures
            final(self).wf(),
            old(self).move_history@.len() == 0 ==> !r && same_state(final(self), old(self)),
            old(self).move_history@.len() > 0 ==> {
                let m = old(self).move_history@.last();
                &&& r
                &&& final(self).core_view() == spec_unapply(old(self).core_view(), m)
                &&& final(self).move_history@ == old(self).move_history@.drop_last()
                &&& final(self).redo_history@ == old(self).redo_history@.push(m)
                &&& same_aux(final(self), old(self))
            },
    {
        let popped = self.move_history.pop();
        match popped {
            Option::None => false,
            Option::Some(last) => {
                let col = Piece::color_of(last.moved_piece);
                match last.move_type {
                    MoveType::EnPassant => {
                        if last.from.v < 64 {
                            self.board[last.from.v as usize] = last.moved_piece;
                        }
                        if last.to.v < 64 {
                            self.board[last.to.v as usize] = Piece::Empty;
                        }
                        if last.capture_piece_sq.v < 64 {
                            self.board[last.capture_piece_sq.v as usize] = last.captured_piece;
                        }
                        self.bitboards.set_checkers(col, last.from);
                        self.bitboards.unset_checkers(col, last.to);
                        self.bitboards.set_checkers(col.opposite(), last.capture_piece_sq);
                        self.en_passant_square = last.to;
                    }
                    _ => {
                        if last.from.v < 64 {
                            self.board[last.from.v as usize] = last.moved_piece;
                        }
                        if last.to.v < 64 {
                            self.board[last.to.v as usize] = last.captured_piece;
                        }
                        self.bitboards.set_checkers(col, last.from);
                        self.bitboards.unset_checkers(col, last.to);
                        if last.move_type == MoveType::Capture {
                            self.bitboards.set_checkers(col.opposite(), last.capture_piece_sq);
                        } else if last.move_type == MoveType::Promotion {
                            let ccol = Piece::color_of(last.captured_piece);
                            if ccol != Color::Both {
                                self.bitboards.set_checkers(ccol, last.capture_piece_sq);
                            }
                        }
                    }
                }

                self.side_to_move = self.side_to_move.opposite();

                if col == Color::Black {
                    if self.fullmove_count > 0 {
                        self.fullmove_count = self.fullmove_count - 1;
                    }
                }
                self.halfmove_clock = last.halfmove_clock;

                self.redo_history.push(last);
                true
            }
        }
    }

    /// Re-apply the most recently undone move by handing its endpoints
    /// back to `move_piece`, flagged so the redo history survives.
    /// Answers `false`, changing nothing, on an empty redo history.
    pub fn redo_move(&mut self) -> (r: bool)
        requires
            old(self).wf(),
        ensures
            final(self).wf(),
            old(self).redo_history@.len() == 0 ==> !r && same_state(final(self), old(self)),
            old(self).redo_history@.len() > 0 ==> {
                let m0 = old(self).redo_history@.last();
                &&& r
                &&& same_aux(final(self), old(self))
                &&& spec_accepted(old(self), m0.from, m0.to) ==> {
                    let m = spec_classify(old(self).core_view(), m0.from, m0.to);
                    &&& final(self).core_view() == spec_apply(old(self).core_view(), m)
                    &&& final(self).move_history@ == old(self).move_history@.push(m)
                    &&& final(self).redo_history@ == old(self).redo_history@.drop_last()
                }
                &&& !spec_accepted(old(self), m0.from, m0.to) ==> {
                    &&& final(self).core_view() == old(self).core_view()
                    &&& final(self).move_history@ == old(self).move_history@
                    &&& final(self).redo_history@ == old(self).redo_history@.drop_last()
                }
            },
    {
        let popped = self.redo_history.pop();
        match popped {
            Option::None => false,
            Option::Some(m0) => {
                self.move_piece(m0.from, m0.to, false);
                true
            }
        }
    }
}

impl Default for Position {
    /// The all-empty position.
    fn default() -> (r: Position)
        ensures
            r.wf(),
            r.board@ =~= Seq::new(64, |i: int| Piece::Empty),
            r.bitboards.checkers_white == 0,
            r.bitboards.checkers_black == 0,
            r.en_passant_square.v == 64,
            r.move_history@ =~= Seq::<MoveInfo>::empty(),
            r.redo_history@ =~= Seq::<MoveInfo>::empty(),
            r.fullmove_count == 1,
            r.halfmove_clock == 0,
            r.side_to_move == Color::White,
    {
        Position::empty()
    }
}

impl MoveInfo {
    /// Classify the move `from -> to` against the current position; see
    /// `spec_classify` for the exact rules.
    pub fn new(from: Square, to: Square, position: &Position) -> (m: MoveInfo)
        requires
            position.wf(),
            from.v < 64,
            to.v < 64,
        ensures
            m == spec_classify(position.core_view(), from, to),
    {
        let moved = position.board[from.v as usize];
        let captured0 = position.board[to.v as usize];
        let base = MoveInfo {
            move_type: MoveType::Quiet,
            from,
            to,
            moved_piece: moved,
            captured_piece: captured0,
            capture_piece_sq: Square { v: 64 },
            halfmove_clock: position.halfmove_clock,
        };
        if Piece::type_of(moved) == PieceType::Pawn {
            let col = Piece::color_of(moved);
            let rr = Rank::relative_rank(col, Square::rank_of(from));
            if rr.v == 6 {
                MoveInfo { move_type: MoveType::Promotion, capture_piece_sq: to, ..base }
            } else if rr.v == 1 && Square::file_of(from).v == Square::file_of(to).v && captured0
                == Piece::Empty {
                MoveInfo { move_type: MoveType::TwoSquarePush, ..base }
            } else if captured0 != Piece::Empty {
                MoveInfo { move_type: MoveType::Capture, capture_piece_sq: to, ..base }
            } else if Square::file_of(from).v != Square::file_of(to).v {
                let cs = to.step(Direction::forward_direction(col.opposite()));
                let captured = if cs.v < 64 {
                    position.board[cs.v as usize]
                } else {
                    Piece::Empty
                };
                MoveInfo {
                    move_type: MoveType::EnPassant,
                    captured_piece: captured,
                    capture_piece_sq: cs,
                    ..base
                }
            } else {
                base
            }
        } else {
            if captured0 != Piece::Empty {
                MoveInfo { move_type: MoveType::Capture, capture_piece_sq: to, ..base }
            } else {
                base
            }
        }
    }
}

} // verus!
