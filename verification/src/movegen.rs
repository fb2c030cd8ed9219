//! Pseudo-legal move generation over the attack tables.
//!
//! For every square of the board, the destinations of the occupying piece
//! are computed from the precomputed tables and the current occupancy,
//! friendly-occupied squares are stripped, and the result is written into
//! the position's valid-move cache; the attacked squares of the moving
//! side's pieces are unioned into its attacks board. The results are
//! pseudo-legal only: moves that leave the mover's own king in check are
//! not filtered out.

use vstd::prelude::*;
use crate::bitboard::{lemma_u64_or_zero_right, spec_is_bit_set, spec_set_bit, Bitboard};
use crate::coords::{Color, Direction, Piece, PieceType, Rank, Square};
use crate::position::{piece_at, CoreView, Position};
use crate::tables::{spec_pawn_attack_mask, spec_tables_wf, LookupTables};

verus! {

broadcast use lemma_u64_or_zero_right;

/// The two outputs of per-square move computation: the playable
/// destinations and the attacked squares (for pawns the two differ —
/// pushes are playable but attack nothing).
#[derive(Clone, Copy, Debug, PartialEq, Eq, Structural)]
pub struct ComputedMoves {
    pub valid_moves: Bitboard,
    pub attacks: Bitboard,
}

impl ComputedMoves {
    pub open spec fn spec_bitor(self, rhs: ComputedMoves) -> ComputedMoves {
        ComputedMoves {
            valid_moves: self.valid_moves | rhs.valid_moves,
            attacks: self.attacks | rhs.attacks,
        }
    }

    /// Union of both fields, pairwise.
    pub fn bitor(self, rhs: ComputedMoves) -> (r: ComputedMoves)
        ensures
            r == self.spec_bitor(rhs),
    {
        ComputedMoves {
            valid_moves: self.valid_moves | rhs.valid_moves,
            attacks: self.attacks | rhs.attacks,
        }
    }
}

/// The occupancy of either color.
pub open spec fn spec_occ_both(c: CoreView) -> u64 {
    c.white | c.black
}

/// The occupancy of `color` (union for the neutral color).
pub open spec fn spec_occ(c: CoreView, color: Color) -> u64 {
    match color {
        Color::White => c.white,
        Color::Black => c.black,
        Color::Both => c.white | c.black,
    }
}

/// Pawn moves from `sq`: a one-square push onto an empty square, a second
/// push from the pawn's relative second rank if that square is empty too
/// (a blocked first step forfeits both), and the table's capture mask
/// restricted to enemy-occupied squares and the en-passant target.
pub open spec fn spec_pawn_moves(c: CoreView, t: &LookupTables, sq: Square) -> ComputedMoves {
    let piece = piece_at(c, sq);
    let col = Piece::spec_color_of(piece);
    let fwd = Direction::spec_forward_direction(col);
    let occ = spec_occ_both(c);
    let p1 = sq.spec_step(fwd);
    let first_ok = p1.v < 64 && !spec_is_bit_set(occ, p1);
    let push1 = if first_ok {
        spec_set_bit(0, p1)
    } else {
        0
    };
    let on_second = Rank::spec_relative_rank(col, Square::spec_rank_of(sq)).v == 1;
    let p2 = p1.spec_step(fwd);
    let second_ok = first_ok && on_second && p2.v < 64 && !spec_is_bit_set(occ, p2);
    let pushes = if second_ok {
        spec_set_bit(push1, p2)
    } else {
        push1
    };
    let enemy = spec_occ(c, col.spec_opposite());
    let enemy_ep = if c.ep.v != 64 {
        spec_set_bit(enemy, c.ep)
    } else {
        enemy
    };
    let attacks = spec_pawn_attack_mask(t, col, sq) & enemy_ep;
    ComputedMoves { valid_moves: pushes | attacks, attacks }
}

/// Knight moves: the static jump mask.
pub open spec fn spec_knight_moves(t: &LookupTables, sq: Square) -> ComputedMoves {
    let a = if sq.v < 64 {
        t.knight_masks@[sq.v as int]
    } else {
        0
    };
    ComputedMoves { valid_moves: a, attacks: a }
}

/// King moves: the static step mask (castling is not implemented).
pub open spec fn spec_king_moves(t: &LookupTables, sq: Square) -> ComputedMoves {
    let a = if sq.v < 64 {
        t.king_masks@[sq.v as int]
    } else {
        0
    };
    ComputedMoves { valid_moves: a, attacks: a }
}

/// Rook moves: the magic-table lookup keyed by the occupancy restricted
/// to the square's relevance mask.
pub open spec fn spec_rook_moves(c: CoreView, t: &LookupTables, sq: Square) -> ComputedMoves {
    let a = if sq.v < 64 {
        t.rook_blockers_lookup@[sq.v as int].spec_get(
            spec_occ_both(c) & t.orthogonal_masks@[sq.v as int],
        )
    } else {
        0
    };
    ComputedMoves { valid_moves: a, attacks: a }
}

/// Bishop moves: the magic-table lookup keyed by the occupancy restricted
/// to the square's relevance mask.
pub open spec fn spec_bishop_moves(c: CoreView, t: &LookupTables, sq: Square) -> ComputedMoves {
    let a = if sq.v < 64 {
        t.bishop_blockers_lookup@[sq.v as int].spec_get(
            spec_occ_both(c) & t.diagonal_masks@[sq.v as int],
        )
    } else {
        0
    };
    ComputedMoves { valid_moves: a, attacks: a }
}

/// The moves of whatever piece occupies `sq`: dispatch on its type, a
/// queen being the union of the rook and bishop results, an empty square
/// contributing nothing.
pub open spec fn spec_computed_moves(c: CoreView, t: &LookupTables, sq: Square) -> ComputedMoves {
    match Piece::spec_type_of(piece_at(c, sq)) {
        PieceType::Pawn => spec_pawn_moves(c, t, sq),
        PieceType::Knight => spec_knight_moves(t, sq),
        PieceType::Rook => spec_rook_moves(c, t, sq),
        PieceType::Bishop => spec_bishop_moves(c, t, sq),
        PieceType::Queen => spec_rook_moves(c, t, sq).spec_bitor(spec_bishop_moves(c, t, sq)),
        PieceType::King => spec_king_moves(t, sq),
        PieceType::Empty => ComputedMoves { valid_moves: 0, attacks: 0 },
    }
}

/// The union of the attack sets of the squares below `n` that hold a
/// piece of `color`.
pub open spec fn spec_attacks_fold(c: CoreView, t: &LookupTables, color: Color, n: int) -> u64
    decreases n,
{
    if n <= 0 {
        0
    } else {
        spec_attacks_fold(c, t, color, n - 1) | (if Piece::spec_color_of(
            piece_at(c, Square { v: (n - 1) as u8 }),
        ) == color {
            spec_computed_moves(c, t, Square { v: (n - 1) as u8 }).attacks
        } else {
            0
        })
    }
}

fn compute_pawn_moves(pos: &Position, tables: &LookupTables, sq: Square) -> (r: ComputedMoves)
    requires
        pos.wf(),
        spec_tables_wf(tables),
        sq.v < 64,
    ensures
        r == spec_pawn_moves(pos.core_view(), tables, sq),
{
    let piece = pos.board[sq.v as usize];
    let col = Piece::color_of(piece);
    let fwd = Direction::forward_direction(col);
    let mut valid_moves: u64 = 0;

    let p1 = sq.step(fwd);
    let first_ok = p1.v < 64 && !pos.bitboards.is_checkers_sq_set(Color::Both, p1);
    if first_ok {
        valid_moves = crate::bitboard::set_bit(valid_moves, p1);
        if Rank::relative_rank(col, Square::rank_of(sq)).v == 1 {
            let p2 = p1.step(fwd);
            if p2.v < 64 && !pos.bitboards.is_checkers_sq_set(Color::Both, p2) {
                valid_moves = crate::bitboard::set_bit(valid_moves, p2);
            }
        }
    }

    let mut enemy = pos.bitboards.get_checkers(col.opposite());
    if pos.en_passant_square.v != 64 {
        enemy = crate::bitboard::set_bit(enemy, pos.en_passant_square);
    }
    let attacks = tables.get_pawn_attack_mask(col, sq) & enemy;
    valid_moves = valid_moves | attacks;

    ComputedMoves { valid_moves, attacks }
}

fn compute_knight_moves(tables: &LookupTables, sq: Square) -> (r: ComputedMoves)
    requires
        spec_tables_wf(tables),
        sq.v < 64,
    ensures
        r == spec_knight_moves(tables, sq),
{
    let a = tables.get_knight_mask(sq);
    ComputedMoves { valid_moves: a, attacks: a }
}

fn compute_king_moves(tables: &LookupTables, sq: Square) -> (r: ComputedMoves)
    requires
        spec_tables_wf(tables),
        sq.v < 64,
    ensures
        r == spec_king_moves(tables, sq),
{
    let a = tables.get_king_mask(sq);
    ComputedMoves { valid_moves: a, attacks: a }
}

fn compute_rook_moves(pos: &Position, tables: &LookupTables, sq: Square) -> (r: ComputedMoves)
    requires
        pos.wf(),
        spec_tables_wf(tables),
        sq.v < 64,
    ensures
        r == spec_rook_moves(pos.core_view(), tables, sq),
{
    let key = pos.bitboards.get_checkers(Color::Both) & tables.get_orthogonal_mask(sq);
    let a = tables.get_rook_mask(sq, key);
    ComputedMoves { valid_moves: a, attacks: a }
}

fn compute_bishop_moves(pos: &Position, tables: &LookupTables, sq: Square) -> (r: ComputedMoves)
    requires
        pos.wf(),
        spec_tables_wf(tables),
        sq.v < 64,
    ensures
        r == spec_bishop_moves(pos.core_view(), tables, sq),
{
    let key = pos.bitboards.get_checkers(Color::Both) & tables.get_diagonal_mask(sq);
    let a = tables.get_bishop_mask(sq, key);
    ComputedMoves { valid_moves: a, attacks: a }
}

/// Recompute the valid-move cache of every square and the attacks board
/// of `color`.
///
/// Every square's result — whichever side its piece belongs to — is
/// stripped of squares occupied by `color` and cached; the attacks of
/// the squares holding `color`'s pieces are unioned into the attacks
/// board of `color`. The board, occupancy, clocks and histories are
/// untouched.
pub fn compute_valid_moves(pos: &mut Position, tables: &LookupTables, color: Color)
    requires
        old(pos).wf(),
        spec_tables_wf(tables),
    ensures
        final(pos).wf(),
        final(pos).core_view() == old(pos).core_view(),
        final(pos).move_history@ == old(pos).move_history@,
        final(pos).redo_history@ == old(pos).redo_history@,
        forall|i: int|
            0 <= i < 64 ==> final(pos).bitboards.spec_valid_moves()[i] == (spec_computed_moves(
                old(pos).core_view(),
                tables,
                Square { v: i as u8 },
            ).valid_moves & !spec_occ(old(pos).core_view(), color)),
        final(pos).bitboards.attacks_white == if color == Color::White {
            spec_attacks_fold(old(pos).core_view(), tables, color, 64)
        } else {
            old(pos).bitboards.attacks_white
        },
        final(pos).bitboards.attacks_black == if color == Color::Black {
            spec_attacks_fold(old(pos).core_view(), tables, color, 64)
        } else {
            old(pos).bitboards.attacks_black
        },
{
    let ghost c = old(pos).core_view();
    let own = pos.bitboards.get_checkers(color);
    let mut attacks: u64 = 0;
    let mut i: u8 = 0;
    while i < 64
        invariant
            pos.wf(),
            spec_tables_wf(tables),
            c == old(pos).core_view(),
            pos.core_view() == c,
            own == spec_occ(c, color),
            pos.move_history@ == old(pos).move_history@,
            pos.redo_history@ == old(pos).redo_history@,
            pos.bitboards.attacks_white == old(pos).bitboards.attacks_white,
            pos.bitboards.attacks_black == old(pos).bitboards.attacks_black,
            i <= 64,
            attacks == spec_attacks_fold(c, tables, color, i as int),
            forall|j: int|
                0 <= j < i as int ==> pos.bitboards.spec_valid_moves()[j] == (spec_computed_moves(
                    c,
                    tables,
                    Square { v: j as u8 },
                ).valid_moves & !spec_occ(c, color)),
            forall|j: int|
                i as int <= j < 64 ==> pos.bitboards.spec_valid_moves()[j] == old(
                    pos,
                ).bitboards.spec_valid_moves()[j],
        decreases 64 - i,
    {
        let sq = Square { v: i };
        let piece = pos.board[i as usize];
        let computed = match Piece::type_of(piece) {
            PieceType::Pawn => compute_pawn_moves(pos, tables, sq),
            PieceType::Knight => compute_knight_moves(tables, sq),
            PieceType::Rook => compute_rook_moves(pos, tables, sq),
            PieceType::Bishop => compute_bishop_moves(pos, tables, sq),
            PieceType::Queen => compute_rook_moves(pos, tables, sq).bitor(
                compute_bishop_moves(pos, tables, sq),
            ),
            PieceType::King => compute_king_moves(tables, sq),
            PieceType::Empty => ComputedMoves { valid_moves: 0, attacks: 0 },
        };
        pos.bitboards.set_valid_moves(sq, computed.valid_moves & !own);
        if Piece::color_of(piece) == color {
            attacks = attacks | computed.attacks;
        }
        i = i + 1;
    }
    let ghost cache = pos.bitboards.spec_valid_moves();
    pos.bitboards.set_attacks(color, attacks);
    proof {
        assert(pos.bitboards.spec_valid_moves() == cache);
        assert forall|i2: int| 0 <= i2 < 64 implies pos.bitboards.spec_valid_moves()[i2] == (
        spec_computed_moves(c, tables, Square { v: i2 as u8 }).valid_moves & !spec_occ(
            c,
            color,
        )) by {
            assert(cache[i2] == (spec_computed_moves(c, tables, Square { v: i2 as u8 }).valid_moves
                & !spec_occ(c, color)));
        }
    }
}

impl Position {
    /// Recompute the valid-move cache and the attacks board of `color`
    /// against the given lookup tables; see the free function for the
    /// exact effect.
    pub fn compute_valid_moves(&mut self, tables: &LookupTables, color: Color)
        requires
            old(self).wf(),
            spec_tables_wf(tables),
        ensures
            final(self).wf(),
            final(self).core_view() == old(self).core_view(),
            final(self).move_history@ == old(self).move_history@,
            final(self).redo_history@ == old(self).redo_history@,
            forall|i: int|
                0 <= i < 64 ==> final(self).bitboards.spec_valid_moves()[i] == (
                spec_computed_moves(
                    old(self).core_view(),
                    tables,
                    Square { v: i as u8 },
                ).valid_moves & !spec_occ(old(self).core_view(), color)),
            final(self).bitboards.attacks_white == if color == Color::White {
                spec_attacks_fold(old(self).core_view(), tables, color, 64)
            } else {
                old(self).bitboards.attacks_white
            },
            final(self).bitboards.attacks_black == if color == Color::Black {
                spec_attacks_fold(old(self).core_view(), tables, color, 64)
            } else {
                old(self).bitboards.attacks_black
            },
    {
        compute_valid_moves(self, tables, color)
    }
}

} // verus!
