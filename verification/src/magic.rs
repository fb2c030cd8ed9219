//! Magic multiply-shift hashing of sliding-piece attack tables.
//!
//! For each square, the full blockers-to-attacks relation (one entry per
//! subset of the square's relevance mask) is compressed into a dense array
//! indexed by `(key * magic) >> (64 - ceil(log2(N)))`, where `N` is the
//! number of keys. Magic constants come from a randomized search bounded by a
//! wall-clock deadline; every accepted constant is validated against every
//! generated key before use, so the non-determinism of the search never
//! affects lookup correctness.

use vstd::prelude::*;
use crate::attacks::{
    bishop_attacks, relevant_blockers, rook_attacks, spec_bishop_attacks, spec_blocker_subset,
    spec_mask_bits, spec_rook_attacks,
};
use crate::bitboard::Bitboard;
use crate::coords::Square;
use vstd::arithmetic::power2::{lemma2_to64, pow2};

verus! {

/// The ceiling of the base-two logarithm (zero for inputs below two).
pub open spec fn spec_ceil_log2(n: u64) -> nat
    decreases n,
{
    if n < 2 {
        0
    } else {
        1 + spec_ceil_log2(((n + 1) / 2) as u64)
    }
}

/// `spec_ceil_log2(n) <= k` whenever `n <= 2^k`.
pub proof fn lemma_ceil_log2_le(n: u64, k: nat)
    requires
        n <= pow2(k),
    ensures
        spec_ceil_log2(n) <= k,
    decreases k,
{
    if n < 2 {
    } else {
        if k == 0 {
            lemma2_to64();
            assert(pow2(0) == 1);
        } else {
            assert(pow2(k) == 2 * pow2((k - 1) as nat)) by {
                vstd::arithmetic::power2::lemma_pow2_unfold(k);
            }
            lemma_ceil_log2_le(((n + 1) / 2) as u64, (k - 1) as nat);
        }
    }
}

/// The magic hash of a key: multiply and keep the top `ceil(log2(shift))`
/// bits. A `shift` below two leaves no index bits and hashes everything
/// to zero.
pub open spec fn spec_hash(key: u64, magic: u64, shift: u64) -> u64 {
    let sb = spec_ceil_log2(shift);
    if sb == 0 {
        0
    } else {
        vstd::wrapping::u64_specs::wrapping_mul(key, magic) >> ((64 - sb) as u64)
    }
}

/// The hash index stays below `2^ceil(log2(shift))`.
pub proof fn lemma_hash_bound(key: u64, magic: u64, shift: u64)
    requires
        spec_ceil_log2(shift) <= 63,
    ensures
        spec_hash(key, magic, shift) < (1u64 << (spec_ceil_log2(shift) as u64)),
{
    let sb = spec_ceil_log2(shift) as u64;
    let x = vstd::wrapping::u64_specs::wrapping_mul(key, magic);
    if sb == 0 {
        assert(1u64 << 0u64 == 1) by (bit_vector);
    } else {
        assert(x >> ((64 - sb) as u64) < (1u64 << sb)) by (bit_vector)
            requires
                1 <= sb <= 63,
        ;
    }
}

/// The ceiling of the base-two logarithm, by repeated rounded halving.
pub fn ceil_log2(n: u64) -> (r: u64)
    ensures
        r == spec_ceil_log2(n),
        r <= 64,
{
    proof {
        lemma2_to64();
        lemma_ceil_log2_le(n, 64);
    }
    let mut x = n;
    let mut lg: u64 = 0;
    while x >= 2
        invariant
            spec_ceil_log2(n) == lg + spec_ceil_log2(x),
            lg <= spec_ceil_log2(n),
            spec_ceil_log2(n) <= 64,
        decreases x,
    {
        assert(x / 2 + x % 2 == (x + 1) / 2);
        x = x / 2 + x % 2;
        lg = lg + 1;
    }
    lg
}

/// The magic hash of a blocker key under the given constant and key count.
pub fn custom_hash(key: Bitboard, magic: u64, shift: u64) -> (r: u64)
    ensures
        r == spec_hash(key, magic, shift),
{
    let sb = ceil_log2(shift);
    if sb == 0 {
        0
    } else {
        key.wrapping_mul(magic) >> (64 - sb)
    }
}

/// A compressed blockers-to-attacks map for one square: a dense attack
/// array indexed by the magic hash. `shift` records the number of keys the
/// table was built over.
pub struct MagicHashTable {
    pub magic: u64,
    pub shift: u64,
    pub table: Vec<Bitboard>,
}

impl MagicHashTable {
    /// The value a lookup answers: the hashed slot, or zero where the hash
    /// falls outside the stored array.
    pub open spec fn spec_get(&self, key: u64) -> u64 {
        let idx = spec_hash(key, self.magic, self.shift);
        if idx < self.table@.len() {
            self.table@[idx as int]
        } else {
            0
        }
    }

    /// Look an occupancy key up in the dense attack array.
    pub fn get(&self, key: Bitboard) -> (r: Bitboard)
        ensures
            r == self.spec_get(key),
    {
        let idx = custom_hash(key, self.magic, self.shift);
        if idx < self.table.len() as u64 {
            self.table[idx as usize]
        } else {
            0
        }
    }
}

/// A magic candidate is admissible for a key set when its hash is
/// injective over the keys: no two of the N observed keys share a slot.
pub open spec fn spec_collision_free(keys: Seq<u64>, magic: u64) -> bool {
    forall|j1: int, j2: int|
        0 <= j1 < keys.len() && 0 <= j2 < keys.len() && j1 != j2 ==> #[trigger] spec_hash(
            keys[j1],
            magic,
            keys.len() as u64,
        ) != #[trigger] spec_hash(keys[j2], magic, keys.len() as u64)
}

/// Build and validate the dense table for one magic candidate: hash every
/// key, fill its slot, and reject the candidate on any slot reuse — it
/// succeeds exactly when the hash is collision-free over all the observed
/// keys. On success every generated key provably looks up its own attack
/// set.
pub fn build_magic_table(keys: &Vec<u64>, attack_sets: &Vec<u64>, magic: u64) -> (out: Option<
    MagicHashTable,
>)
    requires
        keys@.len() == attack_sets@.len(),
        1 <= keys@.len() <= 65536,
    ensures
        out is Some <==> spec_collision_free(keys@, magic),
        out matches Some(t) ==> {
            &&& t.magic == magic
            &&& t.shift == keys@.len()
            &&& t.table@.len() <= 65536
            &&& forall|j: int|
                0 <= j < keys@.len() ==> #[trigger] t.spec_get(keys@[j]) == attack_sets@[j]
        },
{
    let shift = keys.len() as u64;
    let sb = ceil_log2(shift);
    proof {
        lemma2_to64();
        lemma_ceil_log2_le(shift, 16);
    }
    let cap64: u64 = 1u64 << sb;
    assert(1 <= cap64 <= 65536) by (bit_vector)
        requires
            sb <= 16,
            cap64 == 1u64 << sb,
    ;
    let cap: usize = cap64 as usize;
    let mut slots: Vec<u64> = vec![0u64; cap];
    let mut used: Vec<bool> = vec![false; cap];
    proof {
        assert forall|k: int| 0 <= k < cap implies !used@[k] by {
            assert(cloned(false, used@[k]));
        }
    }
    let mut max_idx: usize = 0;
    let mut j: usize = 0;
    while j < keys.len()
        invariant
            keys@.len() == attack_sets@.len(),
            1 <= keys@.len() <= 65536,
            shift == keys@.len(),
            sb == spec_ceil_log2(shift),
            sb <= 16,
            cap == cap64,
            cap64 == 1u64 << sb,
            slots@.len() == cap as int,
            used@.len() == cap as int,
            j <= keys@.len(),
            max_idx < cap,
            forall|j2: int|
                0 <= j2 < j as int ==> {
                    let idx = #[trigger] spec_hash(keys@[j2], magic, shift);
                    &&& idx < cap
                    &&& used@[idx as int]
                    &&& idx <= max_idx
                    &&& slots@[idx as int] == attack_sets@[j2]
                },
            forall|k: int|
                0 <= k < cap && used@[k] ==> exists|j2: int|
                    0 <= j2 < j as int && #[trigger] spec_hash(keys@[j2], magic, shift) == k,
            forall|a: int, b: int|
                0 <= a < b < j as int ==> #[trigger] spec_hash(keys@[a], magic, shift)
                    != #[trigger] spec_hash(keys@[b], magic, shift),
        decreases keys@.len() - j,
    {
        let ghost used0 = used@;
        let key = keys[j];
        let idx64 = custom_hash(key, magic, shift);
        proof {
            lemma_hash_bound(key, magic, shift);
        }
        let idx = idx64 as usize;
        if used[idx] {
            proof {
                let j2 = choose|j2: int|
                    0 <= j2 < j as int && #[trigger] spec_hash(keys@[j2], magic, shift)
                        == idx as int;
                assert(spec_hash(keys@[j2], magic, keys@.len() as u64) == spec_hash(
                    keys@[j as int],
                    magic,
                    keys@.len() as u64,
                ));
                assert(!spec_collision_free(keys@, magic));
            }
            return None;
        }
        slots[idx] = attack_sets[j];
        used[idx] = true;
        if idx > max_idx {
            max_idx = idx;
        }
        proof {
            assert forall|k: int| 0 <= k < cap && used@[k] implies exists|j2: int|
                0 <= j2 < j + 1 && #[trigger] spec_hash(keys@[j2], magic, shift) == k by {
                if k == idx as int {
                    assert(spec_hash(keys@[j as int], magic, shift) == k);
                } else {
                    let j2 = choose|j2: int|
                        0 <= j2 < j as int && #[trigger] spec_hash(keys@[j2], magic, shift) == k;
                    assert(0 <= j2 < j + 1 && spec_hash(keys@[j2], magic, shift) == k);
                }
            }
            assert forall|a: int, b: int| 0 <= a < b < j + 1 implies #[trigger] spec_hash(
                keys@[a],
                magic,
                shift,
            ) != #[trigger] spec_hash(keys@[b], magic, shift) by {
                if b == j as int {
                    assert(used0[spec_hash(keys@[a], magic, shift) as int]);
                    assert(!used0[idx as int]);
                }
            }
        }
        j = j + 1;
    }
    proof {
        assert forall|j1: int, j2: int|
            0 <= j1 < keys@.len() && 0 <= j2 < keys@.len() && j1 != j2 implies #[trigger] spec_hash(
            keys@[j1],
            magic,
            keys@.len() as u64,
        ) != #[trigger] spec_hash(keys@[j2], magic, keys@.len() as u64) by {
            if j1 < j2 {
                assert(spec_hash(keys@[j1], magic, shift) != spec_hash(keys@[j2], magic, shift));
            } else {
                assert(spec_hash(keys@[j2], magic, shift) != spec_hash(keys@[j1], magic, shift));
            }
        }
        assert(spec_collision_free(keys@, magic));
    }
    slots.truncate(max_idx + 1);
    let t = MagicHashTable { magic, shift, table: slots };
    proof {
        assert(forall|j2: int|
            0 <= j2 < keys@.len() ==> #[trigger] t.spec_get(keys@[j2]) == attack_sets@[j2]);
    }
    Some(t)
}

/// Relies on `rand::random`: a fresh pseudo-random value. Nothing is
/// promised of it; every accepted magic constant is re-validated by
/// `build_magic_table`.
#[verifier::external_body]
fn random_u64() -> u64 {
    rand::random::<u64>()
}

#[verifier::external_type_specification]
#[verifier::external_body]
pub struct ExInstant(std::time::Instant);

/// Relies on `std::time::Instant::now` to start the search deadline.
/// Nothing is promised of a clock reading.
#[verifier::external_body]
fn clock_now() -> std::time::Instant {
    std::time::Instant::now()
}

/// Relies on `std::time::Instant::elapsed`: milliseconds since `start`,
/// saturated into `u64`. Nothing is promised of a clock reading.
#[verifier::external_body]
fn elapsed_millis(start: &std::time::Instant) -> u64 {
    u64::try_from(start.elapsed().as_millis()).unwrap_or(u64::MAX)
}

/// Search for a magic constant for one square's key set, within a
/// wall-clock budget of `time_limit_ms`.
///
/// Sparse random candidates are drawn and validated; a candidate whose
/// table has exactly one slot per key is perfect and accepted at once,
/// otherwise the smallest validated table found within the budget wins.
/// With `accept_first` the first validated candidate is returned
/// immediately — compression quality never affects correctness, and a
/// caller on the loading path wants the budget spent elsewhere. `None`
/// means no candidate validated in time.
pub fn compute_magic_number(
    keys: &Vec<u64>,
    attack_sets: &Vec<u64>,
    time_limit_ms: u64,
    accept_first: bool,
) -> (out: Option<MagicHashTable>)
    requires
        keys@.len() == attack_sets@.len(),
        1 <= keys@.len() <= 65536,
    ensures
        out matches Some(t) ==> {
            &&& t.shift == keys@.len()
            &&& spec_collision_free(keys@, t.magic)
            &&& forall|j: int|
                0 <= j < keys@.len() ==> #[trigger] t.spec_get(keys@[j]) == attack_sets@[j]
        },
{
    let start = clock_now();
    let mut best: Option<MagicHashTable> = None;
    let mut tries: u64 = 0;
    while tries < 0xFFFF_FFFF_FFFF_FFFFu64
        invariant
            keys@.len() == attack_sets@.len(),
            1 <= keys@.len() <= 65536,
            best matches Some(t) ==> {
                &&& t.shift == keys@.len()
                &&& spec_collision_free(keys@, t.magic)
                &&& forall|j: int|
                    0 <= j < keys@.len() ==> #[trigger] t.spec_get(keys@[j]) == attack_sets@[j]
            },
        decreases 0xFFFF_FFFF_FFFF_FFFFu64 - tries,
    {
        tries = tries + 1;
        if elapsed_millis(&start) >= time_limit_ms {
            break;
        }
        let magic = random_u64() & random_u64() & random_u64();
        match build_magic_table(keys, attack_sets, magic) {
            Some(cand) => {
                let better = match &best {
                    Option::None => true,
                    Option::Some(b) => cand.table.len() < b.table.len(),
                };
                let perfect = cand.table.len() == keys.len();
                if better {
                    best = Some(cand);
                }
                if accept_first || perfect {
                    break;
                }
            }
            Option::None => {}
        }
    }
    best
}

/// Per-square attack tables for one sliding piece: the relevance masks and
/// the magic-compressed blockers-to-attacks maps.
pub struct BitboardLookupTables {
    pub masks: Vec<Bitboard>,
    pub magics: Vec<MagicHashTable>,
}

/// The true attack set of the piece the table is for.
pub open spec fn spec_sliding_attacks(
    orthogonal: bool,
    sq: Square,
    blockers: u64,
    remove_edges: bool,
) -> u64 {
    if orthogonal {
        spec_rook_attacks(sq, blockers, remove_edges)
    } else {
        spec_bishop_attacks(sq, blockers, remove_edges)
    }
}

/// Correctness of a generated sliding table: each square holds its true
/// relevance mask; each hash table records the key count as its shift;
/// for every blocker subset of the mask — every key seen during
/// generation — the hashed lookup answers exactly the ray-cast attack
/// set; and the hash is collision-free over those keys: no two distinct
/// generated keys share a slot.
pub open spec fn spec_sliding_fields_ok(
    masks: Seq<u64>,
    magics: Seq<MagicHashTable>,
    orthogonal: bool,
) -> bool {
    &&& masks.len() == 64
    &&& magics.len() == 64
    &&& forall|s: int|
        0 <= s < 64 ==> #[trigger] masks[s] == spec_sliding_attacks(
            orthogonal,
            Square { v: s as u8 },
            0,
            true,
        )
    &&& forall|s: int| 0 <= s < 64 ==> #[trigger] spec_mask_bits(masks[s]).len() <= 16
    &&& forall|s: int|
        0 <= s < 64 ==> (#[trigger] magics[s].shift) == (1u64 << spec_mask_bits(masks[s]).len())
    &&& forall|s: int, j: int|
        0 <= s < 64 && 0 <= j < (1u64 << spec_mask_bits(masks[s]).len())
            ==> #[trigger] magics[s].spec_get(spec_blocker_subset(masks[s], j as u64))
            == spec_sliding_attacks(
            orthogonal,
            Square { v: s as u8 },
            spec_blocker_subset(masks[s], j as u64),
            false,
        )
    &&& forall|s: int, j1: int, j2: int|
        0 <= s < 64 && 0 <= j1 < (1u64 << spec_mask_bits(masks[s]).len()) && 0 <= j2 < (1u64
            << spec_mask_bits(masks[s]).len()) && j1 != j2 ==> #[trigger] spec_hash(
            spec_blocker_subset(masks[s], j1 as u64),
            magics[s].magic,
            magics[s].shift,
        ) != #[trigger] spec_hash(
            spec_blocker_subset(masks[s], j2 as u64),
            magics[s].magic,
            magics[s].shift,
        )
}

/// See `spec_sliding_fields_ok`, over a generated table pair.
pub open spec fn spec_sliding_ok(t: &BitboardLookupTables, orthogonal: bool) -> bool {
    spec_sliding_fields_ok(t.masks@, t.magics@, orthogonal)
}


/// The end-to-end lookup guarantee of a correct sliding table set: for
/// every square and every occupancy whatsoever, hashing the occupancy
/// restricted to the square's relevance mask answers exactly the ray-cast
/// attack set — any such key is one of the subsets the generation
/// enumerated and validated.
pub proof fn lemma_sliding_lookup_exact(
    masks: Seq<u64>,
    magics: Seq<MagicHashTable>,
    orthogonal: bool,
    s: int,
    occ: u64,
)
    requires
        spec_sliding_fields_ok(masks, magics, orthogonal),
        0 <= s < 64,
    ensures
        magics[s].spec_get(occ & masks[s]) == spec_sliding_attacks(
            orthogonal,
            Square { v: s as u8 },
            occ & masks[s],
            false,
        ),
{
    let mask = masks[s];
    let b = occ & mask;
    assert(b & mask == b) by (bit_vector)
        requires
            b == occ & mask,
    ;
    crate::attacks::lemma_blocker_subsets_complete(mask, b);
    let j = crate::attacks::spec_subset_index(b, spec_mask_bits(mask), 0);
    assert(spec_blocker_subset(mask, j) == b);
    assert(magics[s].spec_get(spec_blocker_subset(mask, j)) == spec_sliding_attacks(
        orthogonal,
        Square { v: s as u8 },
        spec_blocker_subset(mask, j),
        false,
    ));
}

/// Generate the full sliding-attack tables for one piece: per square, the
/// relevance mask, every blocker subset with its ray-cast attack set, and
/// a validated magic table over them. `None` when some square found no
/// magic within the budget.
pub fn generate_sliding_attack_tables(orthogonal: bool, time_limit_ms: u64, accept_first: bool) -> (
    out: Option<BitboardLookupTables>)
    ensures
        out matches Some(t) ==> spec_sliding_ok(&t, orthogonal),
{
    let mut masks: Vec<u64> = Vec::new();
    let mut magics: Vec<MagicHashTable> = Vec::new();
    let mut s: u8 = 0;
    while s < 64
        invariant
            s <= 64,
            masks@.len() == s as int,
            magics@.len() == s as int,
            forall|i: int|
                0 <= i < s as int ==> #[trigger] masks@[i] == spec_sliding_attacks(
                    orthogonal,
                    Square { v: i as u8 },
                    0,
                    true,
                ),
            forall|i: int| 0 <= i < s as int ==> #[trigger] spec_mask_bits(masks@[i]).len() <= 16,
            forall|i: int|
                0 <= i < s as int ==> (#[trigger] magics@[i].shift) == (1u64 << spec_mask_bits(
                    masks@[i],
                ).len()),
            forall|i: int, j: int|
                0 <= i < s as int && 0 <= j < (1u64 << spec_mask_bits(masks@[i]).len())
                    ==> #[trigger] magics@[i].spec_get(spec_blocker_subset(masks@[i], j as u64))
                    == spec_sliding_attacks(
                    orthogonal,
                    Square { v: i as u8 },
                    spec_blocker_subset(masks@[i], j as u64),
                    false,
                ),
            forall|i: int, j1: int, j2: int|
                0 <= i < s as int && 0 <= j1 < (1u64 << spec_mask_bits(masks@[i]).len()) && 0 <= j2
                    < (1u64 << spec_mask_bits(masks@[i]).len()) && j1 != j2 ==> #[trigger] spec_hash(
                    spec_blocker_subset(masks@[i], j1 as u64),
                    magics@[i].magic,
                    magics@[i].shift,
                ) != #[trigger] spec_hash(
                    spec_blocker_subset(masks@[i], j2 as u64),
                    magics@[i].magic,
                    magics@[i].shift,
                ),
        decreases 64 - s,
    {
        let sq = Square { v: s };
        let mask = if orthogonal {
            rook_attacks(sq, 0, true)
        } else {
            bishop_attacks(sq, 0, true)
        };
        let keys = match relevant_blockers(mask) {
            Some(k) => k,
            Option::None => {
                return None;
            }
        };
        let mut atts: Vec<u64> = Vec::new();
        let mut j: usize = 0;
        while j < keys.len()
            invariant
                keys@.len() == 1u64 << spec_mask_bits(mask).len(),
                forall|k: int|
                    0 <= k < keys@.len() ==> #[trigger] keys@[k] == spec_blocker_subset(
                        mask,
                        k as u64,
                    ),
                j <= keys@.len(),
                atts@.len() == j as int,
                forall|k: int|
                    0 <= k < j as int ==> #[trigger] atts@[k] == spec_sliding_attacks(
                        orthogonal,
                        sq,
                        keys@[k],
                        false,
                    ),
            decreases keys@.len() - j,
        {
            let a = if orthogonal {
                rook_attacks(sq, keys[j], false)
            } else {
                bishop_attacks(sq, keys[j], false)
            };
            atts.push(a);
            j = j + 1;
        }
        proof {
            let n64 = spec_mask_bits(mask).len() as u64;
            assert(1u64 <= (1u64 << n64) && (1u64 << n64) <= 65536) by (bit_vector)
                requires
                    n64 <= 16,
            ;
        }
        let mht = match compute_magic_number(&keys, &atts, time_limit_ms, accept_first) {
            Some(m) => m,
            Option::None => {
                return None;
            }
        };
        proof {
            assert forall|j: int| 0 <= j < (1u64 << spec_mask_bits(mask).len()) implies mht.spec_get(
                #[trigger] spec_blocker_subset(mask, j as u64),
            ) == spec_sliding_attacks(
                orthogonal,
                sq,
                spec_blocker_subset(mask, j as u64),
                false,
            ) by {
                assert(keys@[j] == spec_blocker_subset(mask, j as u64));
                assert(atts@[j] == spec_sliding_attacks(orthogonal, sq, keys@[j], false));
                assert(mht.spec_get(keys@[j]) == atts@[j]);
            }
            assert(mht.shift == 1u64 << spec_mask_bits(mask).len());
            assert forall|j1: int, j2: int|
                0 <= j1 < (1u64 << spec_mask_bits(mask).len()) && 0 <= j2 < (1u64 << spec_mask_bits(
                    mask,
                ).len()) && j1 != j2 implies #[trigger] spec_hash(
                spec_blocker_subset(mask, j1 as u64),
                mht.magic,
                mht.shift,
            ) != #[trigger] spec_hash(
                spec_blocker_subset(mask, j2 as u64),
                mht.magic,
                mht.shift,
            ) by {
                assert(keys@[j1] == spec_blocker_subset(mask, j1 as u64));
                assert(keys@[j2] == spec_blocker_subset(mask, j2 as u64));
                assert(spec_hash(keys@[j1], mht.magic, keys@.len() as u64) != spec_hash(
                    keys@[j2],
                    mht.magic,
                    keys@.len() as u64,
                ));
            }
        }
        masks.push(mask);
        magics.push(mht);
        s = s + 1;
    }
    Some(BitboardLookupTables { masks, magics })
}

/// Generate the rook tables (orthogonal rays).
pub fn generate_rook_attack_tables(time_limit_ms: u64, accept_first: bool) -> (out: Option<
    BitboardLookupTables,
>)
    ensures
        out matches Some(t) ==> spec_sliding_ok(&t, true),
{
    generate_sliding_attack_tables(true, time_limit_ms, accept_first)
}

/// Generate the bishop tables (diagonal rays).
pub fn generate_bishop_attack_tables(time_limit_ms: u64, accept_first: bool) -> (out: Option<
    BitboardLookupTables,
>)
    ensures
        out matches Some(t) ==> spec_sliding_ok(&t, false),
{
    generate_sliding_attack_tables(false, time_limit_ms, accept_first)
}

} // verus!
