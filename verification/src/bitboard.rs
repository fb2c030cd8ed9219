//! Bitboard primitives and the per-position bitboard store.
//!
//! A bitboard is a 64-bit integer in which bit `i` encodes a boolean
//! property of square `i`. Operations on the sentinel square are no-ops
//! (reads answer `false`), so callers can pass saturated coordinates
//! through without checking.

use vstd::prelude::*;
use crate::coords::{Color, Square};

verus! {

pub type Bitboard = u64;

pub open spec fn spec_is_bit_set(bb: u64, sq: Square) -> bool {
    sq.v < 64 && bb & (1u64 << sq.v) != 0
}

pub open spec fn spec_set_bit(bb: u64, sq: Square) -> u64 {
    if sq.v < 64 {
        bb | (1u64 << sq.v)
    } else {
        bb
    }
}

pub open spec fn spec_clear_bit(bb: u64, sq: Square) -> u64 {
    if sq.v < 64 {
        bb & !(1u64 << sq.v)
    } else {
        bb
    }
}

/// The bitboard with the bit of `sq` set; the sentinel leaves it unchanged.
pub fn set_bit(bb: Bitboard, sq: Square) -> (r: Bitboard)
    ensures
        r == spec_set_bit(bb, sq),
{
    if sq.v < 64 {
        bb | (1u64 << sq.v)
    } else {
        bb
    }
}

/// The bitboard with the bit of `sq` cleared; the sentinel leaves it
/// unchanged.
pub fn clear_bit(bb: Bitboard, sq: Square) -> (r: Bitboard)
    ensures
        r == spec_clear_bit(bb, sq),
{
    if sq.v < 64 {
        bb & !(1u64 << sq.v)
    } else {
        bb
    }
}

/// Whether the bit of `sq` is set; the sentinel carries no bit.
pub fn is_bit_set(bb: Bitboard, sq: Square) -> (r: bool)
    ensures
        r == spec_is_bit_set(bb, sq),
{
    if sq.v < 64 {
        bb & (1u64 << sq.v) != 0
    } else {
        false
    }
}

/// Bitwise or keeps a zero right operand invisible.
pub broadcast proof fn lemma_u64_or_zero_right(a: u64)
    ensures
        #[trigger] (a | 0u64) == a,
{
    assert(a | 0u64 == a) by (bit_vector);
}

/// Bitwise or keeps a zero left operand invisible.
pub broadcast proof fn lemma_u64_or_zero_left(a: u64)
    ensures
        #[trigger] (0u64 | a) == a,
{
    assert(0u64 | a == a) by (bit_vector);
}

/// Bitwise and with an all-zero board yields no bits.
pub broadcast proof fn lemma_u64_and_zero_left(a: u64)
    ensures
        #[trigger] (0u64 & a) == 0u64,
{
    assert(0u64 & a == 0u64) by (bit_vector);
}

/// Bitwise or is associative.
pub broadcast proof fn lemma_u64_or_assoc(a: u64, b: u64, c: u64)
    ensures
        #[trigger] ((a | b) | c) == a | (b | c),
{
    assert((a | b) | c == a | (b | c)) by (bit_vector);
}

/// After setting the bit of an on-board square, that bit reads as set.
pub proof fn lemma_set_bit_sets(bb: u64, sq: Square)
    requires
        sq.v < 64,
    ensures
        spec_is_bit_set(spec_set_bit(bb, sq), sq),
{
    let v = sq.v;
    assert((bb | (1u64 << v)) & (1u64 << v) != 0) by (bit_vector)
        requires
            v < 64,
    ;
}

/// After clearing the bit of an on-board square, that bit reads as unset,
/// whatever was set before — in particular right after setting it.
pub proof fn lemma_clear_bit_clears(bb: u64, sq: Square)
    requires
        sq.v < 64,
    ensures
        !spec_is_bit_set(spec_clear_bit(bb, sq), sq),
        !spec_is_bit_set(spec_clear_bit(spec_set_bit(bb, sq), sq), sq),
{
    let v = sq.v;
    assert((bb & !(1u64 << v)) & (1u64 << v) == 0) by (bit_vector)
        requires
            v < 64,
    ;
    assert(((bb | (1u64 << v)) & !(1u64 << v)) & (1u64 << v) == 0) by (bit_vector)
        requires
            v < 64,
    ;
}

/// Setting or clearing one square's bit leaves every other square's bit
/// unchanged.
pub proof fn lemma_bit_ops_frame(bb: u64, sq: Square, other: Square)
    requires
        sq.v < 64,
        other.v < 64,
        sq.v != other.v,
    ensures
        spec_is_bit_set(spec_set_bit(bb, sq), other) == spec_is_bit_set(bb, other),
        spec_is_bit_set(spec_clear_bit(bb, sq), other) == spec_is_bit_set(bb, other),
{
    let v = sq.v;
    let w = other.v;
    assert(((bb | (1u64 << v)) & (1u64 << w) != 0) == (bb & (1u64 << w) != 0)) by (bit_vector)
        requires
            v < 64,
            w < 64,
            v != w,
    ;
    assert(((bb & !(1u64 << v)) & (1u64 << w) != 0) == (bb & (1u64 << w) != 0)) by (bit_vector)
        requires
            v < 64,
            w < 64,
            v != w,
    ;
}

/// Reading an on-board square after setting one: set bits read back, all
/// others are untouched.
pub broadcast proof fn lemma_read_set_bit(bb: u64, s: Square, t: Square)
    requires
        t.v < 64,
    ensures
        #[trigger] spec_is_bit_set(spec_set_bit(bb, s), t) == (s.v == t.v || spec_is_bit_set(
            bb,
            t,
        )),
{
    if s.v < 64 {
        if s.v == t.v {
            lemma_set_bit_sets(bb, s);
        } else {
            lemma_bit_ops_frame(bb, s, t);
        }
    }
}

/// Reading an on-board square after clearing one: cleared bits read as
/// unset, all others are untouched.
pub broadcast proof fn lemma_read_clear_bit(bb: u64, s: Square, t: Square)
    requires
        t.v < 64,
    ensures
        #[trigger] spec_is_bit_set(spec_clear_bit(bb, s), t) == (s.v != t.v && spec_is_bit_set(
            bb,
            t,
        )),
{
    if s.v < 64 {
        if s.v == t.v {
            lemma_clear_bit_clears(bb, s);
        } else {
            lemma_bit_ops_frame(bb, s, t);
        }
    }
}

/// The per-position bitboard store: one cached valid-move bitboard per
/// origin square, per-color occupancy ("checkers") and per-color attack
/// boards.
pub struct Bitboards {
    pub valid_moves: Vec<Bitboard>,
    pub checkers_white: Bitboard,
    pub checkers_black: Bitboard,
    pub attacks_white: Bitboard,
    pub attacks_black: Bitboard,
}

impl Bitboards {
    pub open spec fn wf(&self) -> bool {
        self.valid_moves@.len() == 64
    }

    pub open spec fn spec_valid_moves_at(&self, sq: Square) -> u64 {
        if sq.v < 64 {
            self.valid_moves@[sq.v as int]
        } else {
            0
        }
    }

    pub open spec fn spec_valid_moves(&self) -> Seq<u64> {
        self.valid_moves@
    }

    pub open spec fn spec_checkers(&self, color: Color) -> u64 {
        match color {
            Color::White => self.checkers_white,
            Color::Black => self.checkers_black,
            Color::Both => self.checkers_white | self.checkers_black,
        }
    }

    pub open spec fn spec_attacks(&self, color: Color) -> u64 {
        match color {
            Color::White => self.attacks_white,
            Color::Black => self.attacks_black,
            Color::Both => self.attacks_white | self.attacks_black,
        }
    }

    /// The all-zero store.
    pub fn new() -> (r: Bitboards)
        ensures
            r.wf(),
            r.spec_valid_moves() =~= Seq::new(64, |i: int| 0u64),
            r.checkers_white == 0,
            r.checkers_black == 0,
            r.attacks_white == 0,
            r.attacks_black == 0,
    {
        let mut valid_moves: Vec<u64> = Vec::new();
        let mut i: usize = 0;
        while i < 64
            invariant
                i <= 64,
                valid_moves@.len() == i as int,
                forall|j: int| 0 <= j < i as int ==> valid_moves@[j] == 0u64,
            decreases 64 - i,
        {
            valid_moves.push(0);
            i = i + 1;
        }
        Bitboards { valid_moves, checkers_white: 0, checkers_black: 0, attacks_white: 0, attacks_black: 0 }
    }

    /// Replace the cached valid-move bitboard of `sq`; the sentinel square
    /// has no cache entry and the call is a no-op for it.
    pub fn set_valid_moves(&mut self, sq: Square, bb: Bitboard)
        requires
            old(self).wf(),
        ensures
            final(self).wf(),
            final(self).spec_valid_moves() == if sq.v < 64 {
                old(self).spec_valid_moves().update(sq.v as int, bb)
            } else {
                old(self).spec_valid_moves()
            },
            final(self).checkers_white == old(self).checkers_white,
            final(self).checkers_black == old(self).checkers_black,
            final(self).attacks_white == old(self).attacks_white,
            final(self).attacks_black == old(self).attacks_black,
    {
        if sq.v < 64 {
            self.valid_moves[sq.v as usize] = bb;
        }
    }

    /// The cached valid-move bitboard of `sq` (empty for the sentinel).
    pub fn get_valid_moves(&self, sq: Square) -> (r: Bitboard)
        requires
            self.wf(),
        ensures
            r == self.spec_valid_moves_at(sq),
    {
        if sq.v < 64 {
            self.valid_moves[sq.v as usize]
        } else {
            0
        }
    }

    /// Whether `to` is in the cached valid-move set of `from`.
    pub fn is_valid_move(&self, from: Square, to: Square) -> (r: bool)
        requires
            self.wf(),
        ensures
            r == spec_is_bit_set(self.spec_valid_moves_at(from), to),
    {
        is_bit_set(self.get_valid_moves(from), to)
    }

    /// The occupancy bitboard of `color`; the neutral color answers the
    /// union of both sides.
    pub fn get_checkers(&self, color: Color) -> (r: Bitboard)
        ensures
            r == self.spec_checkers(color),
    {
        match color {
            Color::White => self.checkers_white,
            Color::Black => self.checkers_black,
            Color::Both => self.checkers_white | self.checkers_black,
        }
    }

    /// Set the occupancy bit of `sq` for a concrete color; the neutral
    /// color owns no board and the call is a no-op for it.
    pub fn set_checkers(&mut self, color: Color, sq: Square)
        ensures
            final(self).checkers_white == if color == Color::White {
                spec_set_bit(old(self).checkers_white, sq)
            } else {
                old(self).checkers_white
            },
            final(self).checkers_black == if color == Color::Black {
                spec_set_bit(old(self).checkers_black, sq)
            } else {
                old(self).checkers_black
            },
            final(self).valid_moves@ == old(self).valid_moves@,
            final(self).attacks_white == old(self).attacks_white,
            final(self).attacks_black == old(self).attacks_black,
            old(self).wf() ==> final(self).wf(),
    {
        match color {
            Color::White => {
                self.checkers_white = set_bit(self.checkers_white, sq);
            }
            Color::Black => {
                self.checkers_black = set_bit(self.checkers_black, sq);
            }
            Color::Both => {}
        }
    }

    /// Clear the occupancy bit of `sq` for a concrete color; a no-op for
    /// the neutral color.
    pub fn unset_checkers(&mut self, color: Color, sq: Square)
        ensures
            final(self).checkers_white == if color == Color::White {
                spec_clear_bit(old(self).checkers_white, sq)
            } else {
                old(self).checkers_white
            },
            final(self).checkers_black == if color == Color::Black {
                spec_clear_bit(old(self).checkers_black, sq)
            } else {
                old(self).checkers_black
            },
            final(self).valid_moves@ == old(self).valid_moves@,
            final(self).attacks_white == old(self).attacks_white,
            final(self).attacks_black == old(self).attacks_black,
            old(self).wf() ==> final(self).wf(),
    {
        match color {
            Color::White => {
                self.checkers_white = clear_bit(self.checkers_white, sq);
            }
            Color::Black => {
                self.checkers_black = clear_bit(self.checkers_black, sq);
            }
            Color::Both => {}
        }
    }

    /// Whether `sq` is occupied by `color` (either side for the neutral
    /// color).
    pub fn is_checkers_sq_set(&self, color: Color, sq: Square) -> (r: bool)
        ensures
            r == spec_is_bit_set(self.spec_checkers(color), sq),
    {
        is_bit_set(self.get_checkers(color), sq)
    }

    /// Replace the attacks bitboard of a concrete color; a no-op for the
    /// neutral color.
    pub fn set_attacks(&mut self, color: Color, attacks: Bitboard)
        ensures
            final(self).attacks_white == if color == Color::White {
                attacks
            } else {
                old(self).attacks_white
            },
            final(self).attacks_black == if color == Color::Black {
                attacks
            } else {
                old(self).attacks_black
            },
            final(self).valid_moves@ == old(self).valid_moves@,
            final(self).checkers_white == old(self).checkers_white,
            final(self).checkers_black == old(self).checkers_black,
            old(self).wf() ==> final(self).wf(),
    {
        match color {
            Color::White => {
                self.attacks_white = attacks;
            }
            Color::Black => {
                self.attacks_black = attacks;
            }
            Color::Both => {}
        }
    }

    /// The attacks bitboard last stored for `color` (union for the neutral
    /// color).
    pub fn get_attacks(&self, color: Color) -> (r: Bitboard)
        ensures
            r == self.spec_attacks(color),
    {
        match color {
            Color::White => self.attacks_white,
            Color::Black => self.attacks_black,
            Color::Both => self.attacks_white | self.attacks_black,
        }
    }
}

impl Default for Bitboards {
    /// The all-zero store.
    fn default() -> (r: Bitboards)
        ensures
            r.wf(),
            r.spec_checkers(Color::White) == 0,
            r.spec_checkers(Color::Black) == 0,
            r.spec_attacks(Color::White) == 0,
            r.spec_attacks(Color::Black) == 0,
            forall|i: int| 0 <= i < 64 ==> r.spec_valid_moves()[i] == 0u64,
    {
        Bitboards::new()
    }
}

} // verus!
