//! The process-wide attack lookup tables: static jump masks for king,
//! knight and pawns, relevance masks and magic hash tables for the
//! sliding pieces.
//!
//! A `LookupTables` value is built once — generated from scratch or
//! loaded from its binary encodings — and passed by shared reference into
//! move generation; nothing mutates it afterwards.

use vstd::prelude::*;
use crate::attacks::{
    black_pawn_attack_directions, generate_jumping_attacks_db, king_directions, knight_directions,
    spec_jumping_attacks, white_pawn_attack_directions,
};
use crate::bitboard::Bitboard;
use crate::codec::{load_attack_masks_bin, load_magic_hash_table_bin, spec_u64_of_bytes};
use crate::coords::{Color, Square};
use crate::magic::{
    generate_bishop_attack_tables, generate_rook_attack_tables, spec_sliding_fields_ok,
    MagicHashTable,
};

verus! {

/// All precomputed attack tables, indexed by square.
pub struct LookupTables {
    pub diagonal_masks: Vec<Bitboard>,
    pub orthogonal_masks: Vec<Bitboard>,
    pub king_masks: Vec<Bitboard>,
    pub knight_masks: Vec<Bitboard>,
    pub white_pawn_attack_masks: Vec<Bitboard>,
    pub black_pawn_attack_masks: Vec<Bitboard>,
    pub rook_blockers_lookup: Vec<MagicHashTable>,
    pub bishop_blockers_lookup: Vec<MagicHashTable>,
}

pub open spec fn spec_tables_wf(t: &LookupTables) -> bool {
    &&& t.diagonal_masks@.len() == 64
    &&& t.orthogonal_masks@.len() == 64
    &&& t.king_masks@.len() == 64
    &&& t.knight_masks@.len() == 64
    &&& t.white_pawn_attack_masks@.len() == 64
    &&& t.black_pawn_attack_masks@.len() == 64
    &&& t.rook_blockers_lookup@.len() == 64
    &&& t.bishop_blockers_lookup@.len() == 64
}

impl LookupTables {
    pub open spec fn wf(&self) -> bool {
        spec_tables_wf(self)
    }

    /// The bishop relevance mask of `sq` (zero for the sentinel).
    pub fn get_diagonal_mask(&self, sq: Square) -> (r: Bitboard)
        requires
            self.wf(),
        ensures
            r == if sq.v < 64 {
                self.diagonal_masks@[sq.v as int]
            } else {
                0u64
            },
    {
        if sq.v < 64 {
            self.diagonal_masks[sq.v as usize]
        } else {
            0
        }
    }

    /// The rook relevance mask of `sq` (zero for the sentinel).
    pub fn get_orthogonal_mask(&self, sq: Square) -> (r: Bitboard)
        requires
            self.wf(),
        ensures
            r == if sq.v < 64 {
                self.orthogonal_masks@[sq.v as int]
            } else {
                0u64
            },
    {
        if sq.v < 64 {
            self.orthogonal_masks[sq.v as usize]
        } else {
            0
        }
    }

    /// The king jump mask of `sq` (zero for the sentinel).
    pub fn get_king_mask(&self, sq: Square) -> (r: Bitboard)
        requires
            self.wf(),
        ensures
            r == if sq.v < 64 {
                self.king_masks@[sq.v as int]
            } else {
                0u64
            },
    {
        if sq.v < 64 {
            self.king_masks[sq.v as usize]
        } else {
            0
        }
    }

    /// The knight jump mask of `sq` (zero for the sentinel).
    pub fn get_knight_mask(&self, sq: Square) -> (r: Bitboard)
        requires
            self.wf(),
        ensures
            r == if sq.v < 64 {
                self.knight_masks@[sq.v as int]
            } else {
                0u64
            },
    {
        if sq.v < 64 {
            self.knight_masks[sq.v as usize]
        } else {
            0
        }
    }

    /// The capture mask of a pawn of `color` on `sq`; the neutral color
    /// and the sentinel square attack nothing.
    pub fn get_pawn_attack_mask(&self, color: Color, sq: Square) -> (r: Bitboard)
        requires
            self.wf(),
        ensures
            r == spec_pawn_attack_mask(self, color, sq),
    {
        if sq.v >= 64 {
            return 0;
        }
        match color {
            Color::White => self.white_pawn_attack_masks[sq.v as usize],
            Color::Black => self.black_pawn_attack_masks[sq.v as usize],
            Color::Both => 0,
        }
    }

    /// The bishop attack set of `sq` under the hashed occupancy key.
    pub fn get_bishop_mask(&self, sq: Square, blocker_key: Bitboard) -> (r: Bitboard)
        requires
            self.wf(),
        ensures
            r == if sq.v < 64 {
                self.bishop_blockers_lookup@[sq.v as int].spec_get(blocker_key)
            } else {
                0u64
            },
    {
        if sq.v < 64 {
            self.bishop_blockers_lookup[sq.v as usize].get(blocker_key)
        } else {
            0
        }
    }

    /// The rook attack set of `sq` under the hashed occupancy key.
    pub fn get_rook_mask(&self, sq: Square, blocker_key: Bitboard) -> (r: Bitboard)
        requires
            self.wf(),
        ensures
            r == if sq.v < 64 {
                self.rook_blockers_lookup@[sq.v as int].spec_get(blocker_key)
            } else {
                0u64
            },
    {
        if sq.v < 64 {
            self.rook_blockers_lookup[sq.v as usize].get(blocker_key)
        } else {
            0
        }
    }

    /// Generate every table from scratch: jump masks by offset
    /// application, sliding tables by ray casting, blocker enumeration
    /// and the magic search under the given per-square deadline. `None`
    /// when some square found no magic constant within the budget.
    pub fn generate(time_limit_ms: u64, accept_first: bool) -> (out: Option<LookupTables>)
        ensures
            out matches Some(t) ==> {
                &&& t.wf()
                &&& forall|i: int|
                    0 <= i < 64 ==> #[trigger] t.knight_masks@[i] == spec_jumping_attacks(
                        Square { v: i as u8 },
                        seq![
                            (2i8, 1i8),
                            (2i8, -1i8),
                            (-2i8, 1i8),
                            (-2i8, -1i8),
                            (1i8, 2i8),
                            (1i8, -2i8),
                            (-1i8, 2i8),
                            (-1i8, -2i8),
                        ],
                    )
                &&& forall|i: int|
                    0 <= i < 64 ==> #[trigger] t.king_masks@[i] == spec_jumping_attacks(
                        Square { v: i as u8 },
                        seq![
                            (1i8, 0i8),
                            (1i8, 1i8),
                            (0i8, 1i8),
                            (-1i8, 1i8),
                            (-1i8, 0i8),
                            (-1i8, -1i8),
                            (0i8, -1i8),
                            (1i8, -1i8),
                        ],
                    )
                &&& forall|i: int|
                    0 <= i < 64 ==> #[trigger] t.white_pawn_attack_masks@[i]
                        == spec_jumping_attacks(Square { v: i as u8 }, seq![(1i8, 1i8), (1i8, -1i8)])
                &&& forall|i: int|
                    0 <= i < 64 ==> #[trigger] t.black_pawn_attack_masks@[i]
                        == spec_jumping_attacks(
                        Square { v: i as u8 },
                        seq![(-1i8, 1i8), (-1i8, -1i8)],
                    )
                &&& spec_sliding_fields_ok(t.orthogonal_masks@, t.rook_blockers_lookup@, true)
                &&& spec_sliding_fields_ok(t.diagonal_masks@, t.bishop_blockers_lookup@, false)
            },
    {
        let knight_dirs = knight_directions();
        let king_dirs = king_directions();
        let wp_dirs = white_pawn_attack_directions();
        let bp_dirs = black_pawn_attack_directions();
        let knight_masks = generate_jumping_attacks_db(knight_dirs.as_slice());
        let king_masks = generate_jumping_attacks_db(king_dirs.as_slice());
        let white_pawn_attack_masks = generate_jumping_attacks_db(wp_dirs.as_slice());
        let black_pawn_attack_masks = generate_jumping_attacks_db(bp_dirs.as_slice());
        let rook = match generate_rook_attack_tables(time_limit_ms, accept_first) {
            Some(r) => r,
            Option::None => {
                return None;
            }
        };
        let bishop = match generate_bishop_attack_tables(time_limit_ms, accept_first) {
            Some(b) => b,
            Option::None => {
                return None;
            }
        };
        Some(
            LookupTables {
                diagonal_masks: bishop.masks,
                orthogonal_masks: rook.masks,
                king_masks,
                knight_masks,
                white_pawn_attack_masks,
                black_pawn_attack_masks,
                rook_blockers_lookup: rook.magics,
                bishop_blockers_lookup: bishop.magics,
            },
        )
    }

    /// Assemble the table set from the binary encodings of its eight
    /// files. `None` on any size or framing mismatch — a malformed asset
    /// is a fatal load error, never a partial table.
    pub fn load_all(
        diagonal: &Vec<u8>,
        orthogonal: &Vec<u8>,
        king: &Vec<u8>,
        knight: &Vec<u8>,
        white_pawn: &Vec<u8>,
        black_pawn: &Vec<u8>,
        rook_blockers: &Vec<u8>,
        bishop_blockers: &Vec<u8>,
    ) -> (out: Option<LookupTables>)
        ensures
            (out is Some) <==> {
                &&& diagonal@.len() == 512
                &&& orthogonal@.len() == 512
                &&& king@.len() == 512
                &&& knight@.len() == 512
                &&& white_pawn@.len() == 512
                &&& black_pawn@.len() == 512
                &&& exists|ts2: Seq<MagicHashTable>|
                    ts2.len() == 64 && #[trigger] crate::codec::spec_mht_list_bytes(ts2)
                        == rook_blockers@
                &&& exists|ts2: Seq<MagicHashTable>|
                    ts2.len() == 64 && #[trigger] crate::codec::spec_mht_list_bytes(ts2)
                        == bishop_blockers@
            },
            out matches Some(t) ==> {
                &&& t.wf()
                &&& forall|i: int|
                    0 <= i < 64 ==> #[trigger] t.diagonal_masks@[i] == spec_u64_of_bytes(
                        diagonal@.subrange(8 * i, 8 * i + 8),
                    )
                &&& forall|i: int|
                    0 <= i < 64 ==> #[trigger] t.orthogonal_masks@[i] == spec_u64_of_bytes(
                        orthogonal@.subrange(8 * i, 8 * i + 8),
                    )
                &&& forall|i: int|
                    0 <= i < 64 ==> #[trigger] t.king_masks@[i] == spec_u64_of_bytes(
                        king@.subrange(8 * i, 8 * i + 8),
                    )
                &&& forall|i: int|
                    0 <= i < 64 ==> #[trigger] t.knight_masks@[i] == spec_u64_of_bytes(
                        knight@.subrange(8 * i, 8 * i + 8),
                    )
                &&& forall|i: int|
                    0 <= i < 64 ==> #[trigger] t.white_pawn_attack_masks@[i] == spec_u64_of_bytes(
                        white_pawn@.subrange(8 * i, 8 * i + 8),
                    )
                &&& forall|i: int|
                    0 <= i < 64 ==> #[trigger] t.black_pawn_attack_masks@[i] == spec_u64_of_bytes(
                        black_pawn@.subrange(8 * i, 8 * i + 8),
                    )
                &&& crate::codec::spec_mht_list_bytes(t.rook_blockers_lookup@) =~= rook_blockers@
                &&& crate::codec::spec_mht_list_bytes(t.bishop_blockers_lookup@)
                    =~= bishop_blockers@
            },
    {
        let diagonal_masks = match load_attack_masks_bin(diagonal) {
            Some(v) => v,
            Option::None => {
                return None;
            }
        };
        let orthogonal_masks = match load_attack_masks_bin(orthogonal) {
            Some(v) => v,
            Option::None => {
                return None;
            }
        };
        let king_masks = match load_attack_masks_bin(king) {
            Some(v) => v,
            Option::None => {
                return None;
            }
        };
        let knight_masks = match load_attack_masks_bin(knight) {
            Some(v) => v,
            Option::None => {
                return None;
            }
        };
        let white_pawn_attack_masks = match load_attack_masks_bin(white_pawn) {
            Some(v) => v,
            Option::None => {
                return None;
            }
        };
        let black_pawn_attack_masks = match load_attack_masks_bin(black_pawn) {
            Some(v) => v,
            Option::None => {
                return None;
            }
        };
        let rook_blockers_lookup = match load_magic_hash_table_bin(rook_blockers) {
            Some(v) => v,
            Option::None => {
                return None;
            }
        };
        let bishop_blockers_lookup = match load_magic_hash_table_bin(bishop_blockers) {
            Some(v) => v,
            Option::None => {
                return None;
            }
        };
        Some(
            LookupTables {
                diagonal_masks,
                orthogonal_masks,
                king_masks,
                knight_masks,
                white_pawn_attack_masks,
                black_pawn_attack_masks,
                rook_blockers_lookup,
                bishop_blockers_lookup,
            },
        )
    }
}

/// The capture mask of a pawn of `color` on `sq`.
pub open spec fn spec_pawn_attack_mask(t: &LookupTables, color: Color, sq: Square) -> u64 {
    if sq.v < 64 {
        match color {
            Color::White => t.white_pawn_attack_masks@[sq.v as int],
            Color::Black => t.black_pawn_attack_masks@[sq.v as int],
            Color::Both => 0,
        }
    } else {
        0
    }
}

} // verus!
