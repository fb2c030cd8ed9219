//! Attack-set computation: ray casts for the sliding pieces, fixed-offset
//! jumps for knight, king and pawns, relevance masks and blocker-subset
//! enumeration.
//!
//! A ray cast walks from a square in one direction, collecting every square
//! visited and stopping at (and including) the first occupied one.

use vstd::prelude::*;
use crate::bitboard::{
    lemma_u64_or_assoc, lemma_u64_or_zero_left, lemma_u64_or_zero_right, spec_set_bit, Bitboard,
};
use crate::coords::Square;

verus! {

broadcast use lemma_u64_or_zero_right, lemma_u64_or_zero_left, lemma_u64_or_assoc;

/// Upper bound on the squares a ray at file `f`, rank `r` moving by
/// `(df, dr)` per step can still visit; used as a termination measure.
pub open spec fn ray_fuel(f: int, r: int, df: int, dr: int) -> nat {
    let fx = if df > 0 {
        8 - f
    } else if df < 0 {
        f + 1
    } else {
        9
    };
    let rx = if dr > 0 {
        8 - r
    } else if dr < 0 {
        r + 1
    } else {
        9
    };
    let m = if fx < rx {
        fx
    } else {
        rx
    };
    if m < 0 || (df == 0 && dr == 0) {
        0
    } else {
        m as nat
    }
}

/// The squares a ray starting at file `f`, rank `r` and stepping by
/// `(df, dr)` visits: every square up to and including the first blocker,
/// or up to the board edge.
pub open spec fn spec_ray(f: int, r: int, df: int, dr: int, blockers: u64) -> u64
    decreases ray_fuel(f, r, df, dr),
{
    if (df == 0 && dr == 0) || f < 0 || f >= 8 || r < 0 || r >= 8 {
        0
    } else {
        let m = 1u64 << ((r * 8 + f) as u64);
        if blockers & m != 0 {
            m
        } else {
            m | spec_ray(f + df, r + dr, df, dr, blockers)
        }
    }
}

/// Strip the squares of the board edge from `mask`, except for the edges
/// that `sq` itself stands on (their occupancy still matters to a ray cast
/// along that edge).
pub open spec fn spec_remove_edges(mask: u64, sq: Square) -> u64 {
    let f = sq.v as int % 8;
    let r = sq.v as int / 8;
    let m1 = if r != 0 {
        mask & !0xFFu64
    } else {
        mask
    };
    let m2 = if r != 7 {
        m1 & !(0xFFu64 << 56)
    } else {
        m1
    };
    let m3 = if f != 0 {
        m2 & !0x0101010101010101u64
    } else {
        m2
    };
    if f != 7 {
        m3 & !(0x0101010101010101u64 << 7)
    } else {
        m3
    }
}

/// Orthogonal ray union for a rook on `sq` (zero for the sentinel).
pub open spec fn spec_rook_rays(sq: Square, blockers: u64) -> u64 {
    let f = sq.v as int % 8;
    let r = sq.v as int / 8;
    spec_ray(f + 1, r, 1, 0, blockers) | spec_ray(f - 1, r, -1, 0, blockers) | spec_ray(
        f,
        r + 1,
        0,
        1,
        blockers,
    ) | spec_ray(f, r - 1, 0, -1, blockers)
}

pub open spec fn spec_rook_attacks(sq: Square, blockers: u64, remove_edges: bool) -> u64 {
    if sq.v < 64 {
        if remove_edges {
            spec_remove_edges(spec_rook_rays(sq, blockers), sq)
        } else {
            spec_rook_rays(sq, blockers)
        }
    } else {
        0
    }
}

/// Diagonal ray union for a bishop on `sq` (zero for the sentinel).
pub open spec fn spec_bishop_rays(sq: Square, blockers: u64) -> u64 {
    let f = sq.v as int % 8;
    let r = sq.v as int / 8;
    spec_ray(f + 1, r + 1, 1, 1, blockers) | spec_ray(f + 1, r - 1, 1, -1, blockers) | spec_ray(
        f - 1,
        r - 1,
        -1,
        -1,
        blockers,
    ) | spec_ray(f - 1, r + 1, -1, 1, blockers)
}

pub open spec fn spec_bishop_attacks(sq: Square, blockers: u64, remove_edges: bool) -> u64 {
    if sq.v < 64 {
        if remove_edges {
            spec_remove_edges(spec_bishop_rays(sq, blockers), sq)
        } else {
            spec_bishop_rays(sq, blockers)
        }
    } else {
        0
    }
}

/// Walk one ray and accumulate its squares into `acc0`.
fn cast_ray(acc0: Bitboard, f0: i16, r0: i16, df: i16, dr: i16, blockers: Bitboard) -> (out:
    Bitboard)
    requires
        -1 <= df <= 1,
        -1 <= dr <= 1,
        !(df == 0 && dr == 0),
        -2 <= f0 <= 9,
        -2 <= r0 <= 9,
    ensures
        out == acc0 | spec_ray(f0 as int, r0 as int, df as int, dr as int, blockers),
{
    let mut acc = acc0;
    let mut f = f0;
    let mut r = r0;
    let mut stopped = false;
    while !stopped && 0 <= f && f < 8 && 0 <= r && r < 8
        invariant
            -1 <= df <= 1,
            -1 <= dr <= 1,
            !(df == 0 && dr == 0),
            -2 <= f <= 9,
            -2 <= r <= 9,
            acc0 | spec_ray(f0 as int, r0 as int, df as int, dr as int, blockers) == acc | (
            if !stopped && 0 <= f < 8 && 0 <= r < 8 {
                spec_ray(f as int, r as int, df as int, dr as int, blockers)
            } else {
                0u64
            }),
        decreases ray_fuel(f as int, r as int, df as int, dr as int) + (if stopped {
            0int
        } else {
            1int
        }),
    {
        let v: u8 = (r * 8 + f) as u8;
        assert(v == r * 8 + f);
        let m: u64 = 1u64 << v;
        assert(spec_ray(f as int, r as int, df as int, dr as int, blockers) == (if blockers & m
            != 0 {
            m
        } else {
            m | spec_ray(f as int + df as int, r as int + dr as int, df as int, dr as int, blockers)
        }));
        acc = acc | m;
        if blockers & m != 0 {
            stopped = true;
        } else {
            f = f + df;
            r = r + dr;
        }
    }
    acc
}

/// Strip edge squares from a relevance mask, keeping the edges `sq` is on.
pub fn remove_edge_bits(mask: &mut Bitboard, sq: Square)
    ensures
        *final(mask) == spec_remove_edges(*old(mask), sq),
{
    let f = sq.v % 8;
    let r = sq.v / 8;
    if r != 0 {
        *mask = *mask & !0xFFu64;
    }
    if r != 7 {
        *mask = *mask & !(0xFFu64 << 56);
    }
    if f != 0 {
        *mask = *mask & !0x0101010101010101u64;
    }
    if f != 7 {
        *mask = *mask & !(0x0101010101010101u64 << 7);
    }
}

/// The squares a rook on `sq` attacks over the given occupancy: each
/// orthogonal ray runs up to and including its first blocker. With
/// `remove_edges`, edge squares are stripped to form the relevance mask.
pub fn rook_attacks(sq: Square, blockers: Bitboard, remove_edges: bool) -> (out: Bitboard)
    ensures
        out == spec_rook_attacks(sq, blockers, remove_edges),
{
    if sq.v >= 64 {
        return 0;
    }
    let f0 = (sq.v % 8) as i16;
    let r0 = (sq.v / 8) as i16;
    let mut acc = cast_ray(0, f0 + 1, r0, 1, 0, blockers);
    acc = cast_ray(acc, f0 - 1, r0, -1, 0, blockers);
    acc = cast_ray(acc, f0, r0 + 1, 0, 1, blockers);
    acc = cast_ray(acc, f0, r0 - 1, 0, -1, blockers);
    if remove_edges {
        remove_edge_bits(&mut acc, sq);
    }
    acc
}

/// The squares a bishop on `sq` attacks over the given occupancy: each
/// diagonal ray runs up to and including its first blocker. With
/// `remove_edges`, edge squares are stripped to form the relevance mask.
pub fn bishop_attacks(sq: Square, blockers: Bitboard, remove_edges: bool) -> (out: Bitboard)
    ensures
        out == spec_bishop_attacks(sq, blockers, remove_edges),
{
    if sq.v >= 64 {
        return 0;
    }
    let f0 = (sq.v % 8) as i16;
    let r0 = (sq.v / 8) as i16;
    let mut acc = cast_ray(0, f0 + 1, r0 + 1, 1, 1, blockers);
    acc = cast_ray(acc, f0 + 1, r0 - 1, 1, -1, blockers);
    acc = cast_ray(acc, f0 - 1, r0 - 1, -1, -1, blockers);
    acc = cast_ray(acc, f0 - 1, r0 + 1, -1, 1, blockers);
    if remove_edges {
        remove_edge_bits(&mut acc, sq);
    }
    acc
}

/// The square reached from `sq` by a jump of `dr` ranks and `df` files,
/// or the sentinel if it leaves the board.
pub open spec fn spec_jump_target(sq: Square, dr: int, df: int) -> Square {
    let f = sq.v as int % 8 + df;
    let r = sq.v as int / 8 + dr;
    if sq.v < 64 && 0 <= f < 8 && 0 <= r < 8 {
        Square { v: (r * 8 + f) as u8 }
    } else {
        Square { v: 64 }
    }
}

/// The attack set of a jump piece on `sq` over a list of `(rank, file)`
/// offsets; offsets that leave the board are discarded.
pub open spec fn spec_jumping_attacks(sq: Square, dirs: Seq<(i8, i8)>) -> u64
    decreases dirs.len(),
{
    if dirs.len() == 0 {
        0
    } else {
        spec_set_bit(
            spec_jumping_attacks(sq, dirs.drop_last()),
            spec_jump_target(sq, dirs.last().0 as int, dirs.last().1 as int),
        )
    }
}

/// Apply a fixed set of `(rank, file)` jump offsets to `sq`; offsets that
/// leave the board are discarded.
pub fn jumping_attacks(sq: Square, directions: &[(i8, i8)]) -> (out: Bitboard)
    ensures
        out == spec_jumping_attacks(sq, directions@),
{
    let mut acc: u64 = 0;
    let mut i: usize = 0;
    while i < directions.len()
        invariant
            i <= directions@.len(),
            acc == spec_jumping_attacks(sq, directions@.take(i as int)),
        decreases directions@.len() - i,
    {
        let d = directions[i];
        let dr = d.0;
        let df = d.1;
        proof {
            assert(directions@.take(i + 1).drop_last() =~= directions@.take(i as int));
            assert(directions@.take(i + 1).last() == directions@[i as int]);
        }
        if sq.v < 64 {
            let tf: i16 = (sq.v % 8) as i16 + df as i16;
            let tr: i16 = (sq.v / 8) as i16 + dr as i16;
            if 0 <= tf && tf < 8 && 0 <= tr && tr < 8 {
                let v: u8 = (tr * 8 + tf) as u8;
                assert(v == tr * 8 + tf);
                acc = acc | (1u64 << v);
            }
        }
        i = i + 1;
    }
    proof {
        assert(directions@.take(directions@.len() as int) =~= directions@);
    }
    acc
}

/// One attack bitboard per square for a jump piece with the given offsets.
pub fn generate_jumping_attacks_db(directions: &[(i8, i8)]) -> (out: Vec<Bitboard>)
    ensures
        out@.len() == 64,
        forall|i: int|
            0 <= i < 64 ==> out@[i] == spec_jumping_attacks(Square { v: i as u8 }, directions@),
{
    let mut out: Vec<u64> = Vec::new();
    let mut i: u8 = 0;
    while i < 64
        invariant
            i <= 64,
            out@.len() == i as int,
            forall|j: int|
                0 <= j < i as int ==> out@[j] == spec_jumping_attacks(
                    Square { v: j as u8 },
                    directions@,
                ),
        decreases 64 - i,
    {
        let bb = jumping_attacks(Square { v: i }, directions);
        out.push(bb);
        i = i + 1;
    }
    out
}

/// The positions (ascending) of the bits of `mask` below index `i`.
pub open spec fn spec_positions_below(mask: u64, i: int) -> Seq<u64>
    decreases i,
{
    if i <= 0 {
        Seq::empty()
    } else {
        spec_positions_below(mask, i - 1) + (if mask & (1u64 << ((i - 1) as u64)) != 0 {
            seq![(i - 1) as u64]
        } else {
            Seq::empty()
        })
    }
}

/// The positions (ascending) of all set bits of `mask`.
pub open spec fn spec_mask_bits(mask: u64) -> Seq<u64> {
    spec_positions_below(mask, 64)
}

/// Distribute the low bits of `index`, from bit `i` on, onto the listed
/// bit positions: bit `i` of `index` decides whether position `bits[i]`
/// is occupied.
pub open spec fn spec_gather(index: u64, bits: Seq<u64>, i: int) -> u64
    decreases bits.len() - i,
{
    if i < 0 || i >= bits.len() || i >= 64 {
        0
    } else {
        (if index & (1u64 << (i as u64)) != 0 {
            if bits[i] < 64 {
                1u64 << bits[i]
            } else {
                0
            }
        } else {
            0
        }) | spec_gather(index, bits, i + 1)
    }
}

/// The `index`-th blocker subset of `mask`.
pub open spec fn spec_blocker_subset(mask: u64, index: u64) -> u64 {
    spec_gather(index, spec_mask_bits(mask), 0)
}

/// Enumerate every subset of the set bits of `mask` as a candidate blocker
/// occupancy, in index order. Answers `None` only when `mask` has more
/// than 16 bits set, where the enumeration would not fit in memory.
pub fn relevant_blockers(mask: Bitboard) -> (out: Option<Vec<Bitboard>>)
    ensures
        spec_mask_bits(mask).len() <= 16 <==> out is Some,
        out matches Some(keys) ==> {
            &&& keys@.len() == 1u64 << spec_mask_bits(mask).len()
            &&& forall|j: int|
                0 <= j < keys@.len() ==> keys@[j] == spec_blocker_subset(mask, j as u64)
        },
{
    let mut bits: Vec<u64> = Vec::new();
    let mut i: u8 = 0;
    while i < 64
        invariant
            i <= 64,
            bits@ == spec_positions_below(mask, i as int),
            forall|k: int| 0 <= k < bits@.len() ==> bits@[k] < 64,
        decreases 64 - i,
    {
        if mask & (1u64 << i) != 0 {
            bits.push(i as u64);
        }
        i = i + 1;
    }
    let n = bits.len();
    if n > 16 {
        return None;
    }
    let total: u64 = 1u64 << (n as u64);
    let mut keys: Vec<u64> = Vec::new();
    let mut idx: u64 = 0;
    while idx < total
        invariant
            total == 1u64 << (n as u64),
            n == bits@.len(),
            n <= 16,
            bits@ == spec_mask_bits(mask),
            forall|k: int| 0 <= k < bits@.len() ==> bits@[k] < 64,
            idx <= total,
            keys@.len() == idx as int,
            forall|j: int| 0 <= j < idx as int ==> keys@[j] == spec_blocker_subset(mask, j as u64),
        decreases total - idx,
    {
        let mut blockers: u64 = 0;
        let mut bi: usize = 0;
        while bi < n
            invariant
                n == bits@.len(),
                n <= 16,
                forall|k: int| 0 <= k < bits@.len() ==> bits@[k] < 64,
                bi <= n,
                spec_gather(idx, bits@, 0) == blockers | spec_gather(idx, bits@, bi as int),
            decreases n - bi,
        {
            if idx & (1u64 << (bi as u64)) != 0 {
                let b = bits[bi];
                blockers = blockers | (1u64 << b);
            }
            bi = bi + 1;
        }
        keys.push(blockers);
        idx = idx + 1;
    }
    Some(keys)
}


/// The union of the listed bit positions, from index `i` on.
pub open spec fn spec_bits_or(bits: Seq<u64>, i: int) -> u64
    decreases bits.len() - i,
{
    if i < 0 || i >= bits.len() {
        0
    } else {
        (if bits[i] < 64 {
            1u64 << bits[i]
        } else {
            0
        }) | spec_bits_or(bits, i + 1)
    }
}

/// The enumeration index whose subset is `b`: bit `t` of the index says
/// whether `b` holds the board bit at position `bits[t]`.
pub open spec fn spec_subset_index(b: u64, bits: Seq<u64>, i: int) -> u64
    decreases bits.len() - i,
{
    if i < 0 || i >= bits.len() || i >= 64 {
        0
    } else {
        (if bits[i] < 64 && b & (1u64 << bits[i]) != 0 {
            1u64 << (i as u64)
        } else {
            0
        }) | spec_subset_index(b, bits, i + 1)
    }
}

proof fn lemma_subset_index_no_low_bits(b: u64, bits: Seq<u64>, i: int, t: u64)
    requires
        t < i,
        t < 64,
    ensures
        spec_subset_index(b, bits, i) & (1u64 << t) == 0,
    decreases bits.len() - i,
{
    if i < 0 || i >= bits.len() || i >= 64 {
        assert(0u64 & (1u64 << t) == 0) by (bit_vector);
    } else {
        lemma_subset_index_no_low_bits(b, bits, i + 1, t);
        let c = if bits[i] < 64 && b & (1u64 << bits[i]) != 0 {
            1u64 << (i as u64)
        } else {
            0
        };
        let rest = spec_subset_index(b, bits, i + 1);
        let iu = i as u64;
        assert(c & (1u64 << t) == 0) by (bit_vector)
            requires
                t < 64,
                iu < 64,
                t != iu,
                c == 1u64 << iu || c == 0,
        ;
        assert((c | rest) & (1u64 << t) == 0) by (bit_vector)
            requires
                c & (1u64 << t) == 0,
                rest & (1u64 << t) == 0,
        ;
    }
}

proof fn lemma_subset_index_bit(b: u64, bits: Seq<u64>, i: int, t: int)
    requires
        0 <= i <= t < bits.len(),
        t < 64,
        bits[t] < 64,
    ensures
        (spec_subset_index(b, bits, i) & (1u64 << (t as u64)) != 0) <==> (b & (1u64 << bits[t])
            != 0),
    decreases bits.len() - i,
{
    let c = if bits[i] < 64 && b & (1u64 << bits[i]) != 0 {
        1u64 << (i as u64)
    } else {
        0
    };
    let rest = spec_subset_index(b, bits, i + 1);
    let tu = t as u64;
    let iu = i as u64;
    if t == i {
        lemma_subset_index_no_low_bits(b, bits, i + 1, tu);
        assert(((c | rest) & (1u64 << tu) != 0) == (c & (1u64 << tu) != 0)) by (bit_vector)
            requires
                rest & (1u64 << tu) == 0,
        ;
        assert((1u64 << tu) & (1u64 << tu) != 0) by (bit_vector)
            requires
                tu < 64,
        ;
        assert(0u64 & (1u64 << tu) == 0) by (bit_vector);
    } else {
        lemma_subset_index_bit(b, bits, i + 1, t);
        assert(c & (1u64 << tu) == 0) by (bit_vector)
            requires
                tu < 64,
                iu < 64,
                tu != iu,
                c == 1u64 << iu || c == 0,
        ;
        assert(((c | rest) & (1u64 << tu) != 0) == (rest & (1u64 << tu) != 0)) by (bit_vector)
            requires
                c & (1u64 << tu) == 0,
        ;
    }
}

proof fn lemma_subset_index_bound(b: u64, bits: Seq<u64>, i: int)
    requires
        bits.len() <= 63,
    ensures
        spec_subset_index(b, bits, i) < (1u64 << (bits.len() as u64)),
    decreases bits.len() - i,
{
    let len = bits.len() as u64;
    if i < 0 || i >= bits.len() || i >= 64 {
        assert(0u64 < (1u64 << len)) by (bit_vector)
            requires
                len <= 63,
        ;
    } else {
        lemma_subset_index_bound(b, bits, i + 1);
        let c = if bits[i] < 64 && b & (1u64 << bits[i]) != 0 {
            1u64 << (i as u64)
        } else {
            0
        };
        let rest = spec_subset_index(b, bits, i + 1);
        let iu = i as u64;
        assert((c | rest) < (1u64 << len)) by (bit_vector)
            requires
                len <= 63,
                iu < len,
                c == 1u64 << iu || c == 0,
                rest < (1u64 << len),
        ;
    }
}

proof fn lemma_gather_of_subset_index(b: u64, bits: Seq<u64>, i: int)
    requires
        0 <= i,
        bits.len() <= 64,
        forall|t: int| 0 <= t < bits.len() ==> #[trigger] bits[t] < 64,
    ensures
        spec_gather(spec_subset_index(b, bits, 0), bits, i) == b & spec_bits_or(bits, i),
    decreases bits.len() - i,
{
    let idx = spec_subset_index(b, bits, 0);
    if i >= bits.len() || i >= 64 {
        assert(b & 0u64 == 0) by (bit_vector);
    } else {
        lemma_gather_of_subset_index(b, bits, i + 1);
        lemma_subset_index_bit(b, bits, 0, i);
        let k = bits[i];
        let rest_or = spec_bits_or(bits, i + 1);
        if b & (1u64 << k) != 0 {
            assert(spec_gather(idx, bits, i) == (1u64 << k) | (b & rest_or));
            assert(((1u64 << k) | (b & rest_or)) == b & ((1u64 << k) | rest_or)) by (bit_vector)
                requires
                    b & (1u64 << k) != 0,
            ;
        } else {
            assert(spec_gather(idx, bits, i) == 0u64 | (b & rest_or));
            assert((b & rest_or) == b & ((1u64 << k) | rest_or)) by (bit_vector)
                requires
                    b & (1u64 << k) == 0,
            ;
        }
    }
}

proof fn lemma_bits_or_snoc(bits: Seq<u64>, x: u64, i: int)
    requires
        0 <= i <= bits.len(),
    ensures
        spec_bits_or(bits.push(x), i) == spec_bits_or(bits, i) | (if x < 64 {
            1u64 << x
        } else {
            0u64
        }),
    decreases bits.len() - i,
{
    let xb = if x < 64 {
        1u64 << x
    } else {
        0u64
    };
    if i == bits.len() {
        assert(spec_bits_or(bits.push(x), i) == xb | spec_bits_or(bits.push(x), i + 1));
        assert(xb | 0 == 0 | xb) by (bit_vector);
    } else {
        lemma_bits_or_snoc(bits, x, i + 1);
        assert(bits.push(x)[i] == bits[i]);
        let c = if bits[i] < 64 {
            1u64 << bits[i]
        } else {
            0u64
        };
        let r = spec_bits_or(bits, i + 1);
        assert(c | (r | xb) == (c | r) | xb) by (bit_vector);
    }
}

proof fn lemma_positions_or(mask: u64, k: int)
    requires
        0 <= k <= 64,
    ensures
        k < 64 ==> spec_bits_or(spec_positions_below(mask, k), 0) == mask & ((((1u64 << (
        k as u64)) - 1)) as u64),
        k == 64 ==> spec_bits_or(spec_positions_below(mask, k), 0) == mask,
    decreases k,
{
    if k == 0 {
        assert(mask & ((((1u64 << 0u64) - 1)) as u64) == 0) by (bit_vector);
    } else {
        lemma_positions_or(mask, k - 1);
        let prev = spec_positions_below(mask, k - 1);
        let ku = (k - 1) as u64;
        let set_here = mask & (1u64 << ku) != 0;
        if set_here {
            assert(spec_positions_below(mask, k) =~= prev.push(ku));
            lemma_bits_or_snoc(prev, ku, 0);
        } else {
            assert(spec_positions_below(mask, k) =~= prev);
        }
        let low = mask & ((((1u64 << ku) - 1)) as u64);
        if k < 64 {
            if set_here {
                assert(low | (1u64 << ku) == mask & ((((1u64 << ((ku + 1) as u64)) - 1)) as u64))
                    by (bit_vector)
                    requires
                        ku < 63,
                        low == mask & ((((1u64 << ku) - 1)) as u64),
                        mask & (1u64 << ku) != 0,
                ;
            } else {
                assert(low == mask & ((((1u64 << ((ku + 1) as u64)) - 1)) as u64)) by (bit_vector)
                    requires
                        ku < 63,
                        low == mask & ((((1u64 << ku) - 1)) as u64),
                        mask & (1u64 << ku) == 0,
                ;
            }
        } else {
            if set_here {
                assert(low | (1u64 << ku) == mask) by (bit_vector)
                    requires
                        ku == 63,
                        low == mask & ((((1u64 << ku) - 1)) as u64),
                        mask & (1u64 << ku) != 0,
                ;
            } else {
                assert(low == mask) by (bit_vector)
                    requires
                        ku == 63,
                        low == mask & ((((1u64 << ku) - 1)) as u64),
                        mask & (1u64 << ku) == 0,
                ;
            }
        }
    }
}

/// Every element of the bit-position list is an on-board bit index.
pub proof fn lemma_mask_bits_in_range(mask: u64, k: int)
    requires
        0 <= k <= 64,
    ensures
        forall|t: int|
            0 <= t < spec_positions_below(mask, k).len() ==> #[trigger] spec_positions_below(
                mask,
                k,
            )[t] < 64,
    decreases k,
{
    if k > 0 {
        lemma_mask_bits_in_range(mask, k - 1);
        let prev = spec_positions_below(mask, k - 1);
        assert forall|t: int|
            0 <= t < spec_positions_below(mask, k).len() implies #[trigger] spec_positions_below(
            mask,
            k,
        )[t] < 64 by {
            if t < prev.len() {
                assert(spec_positions_below(mask, k)[t] == prev[t]);
            }
        }
    }
}

/// The blocker enumeration is complete: every subset of the mask appears
/// at some index of the enumeration. Together with the per-key lookup
/// guarantee of a generated sliding table, every occupancy restricted to
/// a relevance mask therefore hits a validated table slot.
pub proof fn lemma_blocker_subsets_complete(mask: u64, b: u64)
    requires
        b & mask == b,
        spec_mask_bits(mask).len() <= 63,
    ensures
        ({
            let j = spec_subset_index(b, spec_mask_bits(mask), 0);
            &&& j < (1u64 << spec_mask_bits(mask).len())
            &&& spec_blocker_subset(mask, j) == b
        }),
{
    let bits = spec_mask_bits(mask);
    lemma_mask_bits_in_range(mask, 64);
    lemma_subset_index_bound(b, bits, 0);
    lemma_gather_of_subset_index(b, bits, 0);
    lemma_positions_or(mask, 64);
    assert(spec_bits_or(bits, 0) == mask);
    assert(b & mask == b);
}

/// The eight knight jump offsets.
pub fn knight_directions() -> (out: Vec<(i8, i8)>)
    ensures
        out@ =~= seq![
            (2i8, 1i8),
            (2i8, -1i8),
            (-2i8, 1i8),
            (-2i8, -1i8),
            (1i8, 2i8),
            (1i8, -2i8),
            (-1i8, 2i8),
            (-1i8, -2i8),
        ],
{
    let mut v: Vec<(i8, i8)> = Vec::new();
    v.push((2, 1));
    v.push((2, -1));
    v.push((-2, 1));
    v.push((-2, -1));
    v.push((1, 2));
    v.push((1, -2));
    v.push((-1, 2));
    v.push((-1, -2));
    v
}

/// The eight king step offsets.
pub fn king_directions() -> (out: Vec<(i8, i8)>)
    ensures
        out@ =~= seq![
            (1i8, 0i8),
            (1i8, 1i8),
            (0i8, 1i8),
            (-1i8, 1i8),
            (-1i8, 0i8),
            (-1i8, -1i8),
            (0i8, -1i8),
            (1i8, -1i8),
        ],
{
    let mut v: Vec<(i8, i8)> = Vec::new();
    v.push((1, 0));
    v.push((1, 1));
    v.push((0, 1));
    v.push((-1, 1));
    v.push((-1, 0));
    v.push((-1, -1));
    v.push((0, -1));
    v.push((1, -1));
    v
}

/// The two capture offsets of a white pawn.
pub fn white_pawn_attack_directions() -> (out: Vec<(i8, i8)>)
    ensures
        out@ =~= seq![(1i8, 1i8), (1i8, -1i8)],
{
    let mut v: Vec<(i8, i8)> = Vec::new();
    v.push((1, 1));
    v.push((1, -1));
    v
}

/// The two capture offsets of a black pawn.
pub fn black_pawn_attack_directions() -> (out: Vec<(i8, i8)>)
    ensures
        out@ =~= seq![(-1i8, 1i8), (-1i8, -1i8)],
{
    let mut v: Vec<(i8, i8)> = Vec::new();
    v.push((-1, 1));
    v.push((-1, -1));
    v
}

} // verus!
