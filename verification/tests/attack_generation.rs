use chess_core::attacks::{
    bishop_attacks, generate_jumping_attacks_db, jumping_attacks, knight_directions,
    relevant_blockers, remove_edge_bits, rook_attacks,
};
use chess_core::coords::Square;
use chess_core::magic::{build_magic_table, compute_magic_number, custom_hash};

fn sq(v: u8) -> Square {
    Square::from_index(v)
}

#[test]
fn rook_rays_from_a1_on_an_empty_board() {
    // full first rank (b1..h1) and full a-file (a2..a8)
    assert_eq!(rook_attacks(sq(0), 0, false), 0x0101_0101_0101_01FE);
    // the relevance mask drops the far edges: b1..g1 and a2..a7
    assert_eq!(rook_attacks(sq(0), 0, true), 0x0001_0101_0101_017E);
}

#[test]
fn rook_ray_stops_at_and_includes_the_first_blocker() {
    // rook on d4 (27), blocker on d6 (43): the north ray is d5, d6 only
    let att = rook_attacks(sq(27), 1u64 << 43, false);
    assert!(att & (1 << 35) != 0); // d5
    assert!(att & (1 << 43) != 0); // d6 (the blocker itself)
    assert!(att & (1 << 51) == 0); // d7, shadowed
    // the east/west/south rays are unaffected
    assert!(att & (1 << 24) != 0); // a4
    assert!(att & (1 << 31) != 0); // h4
    assert!(att & (1 << 3) != 0); // d1
}

#[test]
fn bishop_rays_from_c1_on_an_empty_board() {
    // c1 (2): north-east d2,e3,f4,g5,h6; north-west b2,a3
    let expected: u64 =
        (1 << 11) | (1 << 20) | (1 << 29) | (1 << 38) | (1 << 47) | (1 << 9) | (1 << 16);
    assert_eq!(bishop_attacks(sq(2), 0, false), expected);
}

#[test]
fn bishop_ray_stops_at_and_includes_the_first_blocker() {
    // bishop on a1, blocker on c3: the diagonal is b2, c3 only
    let att = bishop_attacks(sq(0), 1 << 18, false);
    assert_eq!(att, (1 << 9) | (1 << 18));
}

#[test]
fn remove_edge_bits_keeps_the_edges_the_square_stands_on() {
    let mut full = u64::MAX;
    remove_edge_bits(&mut full, sq(0)); // a1: keep rank 1 and the a-file
    assert_eq!(full, !(0xFFu64 << 56) & !(0x0101_0101_0101_0101u64 << 7));
}

#[test]
fn knight_jumps_from_b1() {
    let dirs = knight_directions();
    // b1: a3, c3, d2
    assert_eq!(jumping_attacks(sq(1), dirs.as_slice()), (1 << 16) | (1 << 18) | (1 << 11));
    let db = generate_jumping_attacks_db(dirs.as_slice());
    assert_eq!(db.len(), 64);
    assert_eq!(db[1], (1 << 16) | (1 << 18) | (1 << 11));
    // a knight in the middle has all eight destinations
    assert_eq!(db[27].count_ones(), 8);
}

#[test]
fn relevant_blockers_enumerate_every_subset() {
    let mask: u64 = (1 << 3) | (1 << 17);
    let keys = relevant_blockers(mask).expect("two bits fit easily");
    assert_eq!(keys.len(), 4);
    assert!(keys.contains(&0));
    assert!(keys.contains(&(1 << 3)));
    assert!(keys.contains(&(1 << 17)));
    assert!(keys.contains(&mask));
    // every subset stays inside the mask
    for k in &keys {
        assert_eq!(k & !mask, 0);
    }
    assert!(relevant_blockers(u64::MAX).is_none());
}

#[test]
fn hash_lookup_matches_ray_cast_for_every_generated_rook_key() {
    // rook on a1: the full 12-bit relevance mask, 4096 keys
    let mask = rook_attacks(sq(0), 0, true);
    let keys = relevant_blockers(mask).unwrap();
    assert_eq!(keys.len(), 4096);
    let mut atts: Vec<u64> = Vec::new();
    for k in &keys {
        atts.push(rook_attacks(sq(0), *k, false));
    }
    let t = compute_magic_number(&keys, &atts, 5000, true)
        .expect("a validated magic should be found well within the budget");
    for (k, a) in keys.iter().zip(atts.iter()) {
        assert_eq!(t.get(*k), *a, "collision or wrong slot for key {k:#x}");
    }
}

#[test]
fn hash_lookup_matches_ray_cast_for_every_generated_bishop_key() {
    // bishop on e4 (28): a small diagonal mask
    let mask = bishop_attacks(sq(28), 0, true);
    let keys = relevant_blockers(mask).unwrap();
    let mut atts: Vec<u64> = Vec::new();
    for k in &keys {
        atts.push(bishop_attacks(sq(28), *k, false));
    }
    let t = compute_magic_number(&keys, &atts, 5000, true).expect("bishop magics come quickly");
    for (k, a) in keys.iter().zip(atts.iter()) {
        assert_eq!(t.get(*k), *a);
    }
}

#[test]
fn build_magic_table_rejects_colliding_candidates() {
    // magic 0 hashes every key to index 0; two keys sharing a slot must
    // be rejected
    let keys = vec![0u64, 1u64];
    let atts = vec![10u64, 20u64];
    assert!(build_magic_table(&keys, &atts, 0).is_none());
}

#[test]
fn build_magic_table_rejects_slot_reuse_even_with_equal_attacks() {
    let keys = vec![0u64, 1u64];
    let atts = vec![10u64, 10u64];
    assert!(build_magic_table(&keys, &atts, 0).is_none());
}

#[test]
fn hash_width_is_the_ceiling_of_the_key_count_log() {
    // five keys need three index bits: the top three bits of the product
    assert_eq!(custom_hash(1u64 << 63, 1, 5), 4);
    // a power-of-two key count uses exactly its logarithm
    assert_eq!(custom_hash(1u64 << 63, 1, 4), 2);
}

#[test]
fn custom_hash_degenerates_to_zero_for_tiny_key_sets() {
    assert_eq!(custom_hash(0xABCD, 0x1234_5678_9ABC_DEF0, 1), 0);
    assert_eq!(custom_hash(u64::MAX, u64::MAX, 0), 0);
}
