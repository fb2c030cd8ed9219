use chess_core::coords::{Color, Piece, Square};
use chess_core::position::Position;
use chess_core::tables::LookupTables;

const START_FEN: &str = "rnbqkbnr/pppppppp/8/8/8/8/PPPPPPPP/RNBQKBNR w KQkq - 0 1";

fn sq(v: u8) -> Square {
    Square::from_index(v)
}

fn tables() -> LookupTables {
    LookupTables::generate(3000, true).expect("table generation should finish within its budget")
}

#[test]
fn knight_on_b1_has_exactly_two_destinations_at_the_start() {
    let t = tables();
    let mut pos = Position::new(START_FEN).unwrap();
    pos.compute_valid_moves(&t, Color::White);
    let moves = pos.bitboards.get_valid_moves(sq(1));
    // a3 and c3; d2 is friendly-occupied
    assert_eq!(moves, (1u64 << 16) | (1u64 << 18));
    assert_eq!(moves.count_ones(), 2);
    assert!(pos.valid_move(sq(1), sq(16)));
    assert!(pos.valid_move(sq(1), sq(18)));
    assert!(!pos.valid_move(sq(1), sq(11)));
}

#[test]
fn white_has_exactly_twenty_pseudo_moves_at_the_start() {
    let t = tables();
    let mut pos = Position::new(START_FEN).unwrap();
    pos.compute_valid_moves(&t, Color::White);
    let board = pos.board_snapshot();
    let mut total = 0u32;
    for v in 0..64u8 {
        if Piece::color_of(board[v as usize]) == Color::White {
            total += pos.bitboards.get_valid_moves(sq(v)).count_ones();
        }
    }
    assert_eq!(total, 20); // 16 pawn moves and 4 knight moves
}

#[test]
fn pawn_pushes_one_or_two_from_its_starting_rank() {
    let t = tables();
    let mut pos = Position::new(START_FEN).unwrap();
    pos.compute_valid_moves(&t, Color::White);
    // e2: e3 and e4
    assert_eq!(pos.bitboards.get_valid_moves(sq(12)), (1u64 << 20) | (1u64 << 28));
    // a blocked pawn has no push at all
    let mut blocked = Position::new("8/8/8/8/8/4n3/4P3/8 w - - 0 1").unwrap();
    blocked.compute_valid_moves(&t, Color::White);
    assert_eq!(blocked.bitboards.get_valid_moves(sq(12)), 0);
    // a piece on the double-push square only blocks the second step
    let mut half = Position::new("8/8/8/8/4n3/8/4P3/8 w - - 0 1").unwrap();
    half.compute_valid_moves(&t, Color::White);
    assert_eq!(half.bitboards.get_valid_moves(sq(12)), 1u64 << 20);
}

#[test]
fn pawn_captures_only_enemy_diagonals() {
    let t = tables();
    // white pawn on e4; black pawn on d5, white knight on f5
    let mut pos = Position::new("8/8/8/3p1N2/4P3/8/8/8 w - - 0 1").unwrap();
    pos.compute_valid_moves(&t, Color::White);
    let moves = pos.bitboards.get_valid_moves(sq(28));
    assert!(moves & (1u64 << 35) != 0, "the enemy pawn on d5 can be taken");
    assert!(moves & (1u64 << 37) == 0, "the friendly knight on f5 cannot");
    assert!(moves & (1u64 << 36) != 0, "the push square e5 is free");
    assert_eq!(moves.count_ones(), 2);
}

#[test]
fn rook_moves_respect_blockers_through_the_magic_tables() {
    let t = tables();
    // white rook on d4, black pawn on d6, white pawn on f4
    let mut pos = Position::new("8/8/3p4/8/3R1P2/8/8/8 w - - 0 1").unwrap();
    pos.compute_valid_moves(&t, Color::White);
    let moves = pos.bitboards.get_valid_moves(sq(27));
    assert!(moves & (1u64 << 35) != 0); // d5
    assert!(moves & (1u64 << 43) != 0); // d6: capturing the blocker
    assert!(moves & (1u64 << 51) == 0); // d7: shadowed
    assert!(moves & (1u64 << 28) != 0); // e4
    assert!(moves & (1u64 << 29) == 0); // f4: friendly
    assert!(moves & (1u64 << 24) != 0); // a4
    assert!(moves & (1u64 << 3) != 0); // d1
}

#[test]
fn queen_moves_are_the_union_of_rook_and_bishop_moves() {
    let t = tables();
    let mut q = Position::new("8/8/8/8/3Q4/8/8/8 w - - 0 1").unwrap();
    q.compute_valid_moves(&t, Color::White);
    let queen_moves = q.bitboards.get_valid_moves(sq(27));
    let mut r = Position::new("8/8/8/8/3R4/8/8/8 w - - 0 1").unwrap();
    r.compute_valid_moves(&t, Color::White);
    let mut b = Position::new("8/8/8/8/3B4/8/8/8 w - - 0 1").unwrap();
    b.compute_valid_moves(&t, Color::White);
    assert_eq!(
        queen_moves,
        r.bitboards.get_valid_moves(sq(27)) | b.bitboards.get_valid_moves(sq(27))
    );
    assert_eq!(queen_moves.count_ones(), 27);
}

#[test]
fn generated_tables_survive_the_binary_codec() {
    let t = tables();
    let diagonal = chess_core::codec::encode_attack_masks_bin(&t.diagonal_masks);
    let orthogonal = chess_core::codec::encode_attack_masks_bin(&t.orthogonal_masks);
    let king = chess_core::codec::encode_attack_masks_bin(&t.king_masks);
    let knight = chess_core::codec::encode_attack_masks_bin(&t.knight_masks);
    let wp = chess_core::codec::encode_attack_masks_bin(&t.white_pawn_attack_masks);
    let bp = chess_core::codec::encode_attack_masks_bin(&t.black_pawn_attack_masks);
    let rooks = chess_core::codec::encode_magic_hash_table_bin(&t.rook_blockers_lookup);
    let bishops = chess_core::codec::encode_magic_hash_table_bin(&t.bishop_blockers_lookup);
    let l = LookupTables::load_all(&diagonal, &orthogonal, &king, &knight, &wp, &bp, &rooks, &bishops)
        .expect("the encodings of a generated table set must load");
    for v in 0..64u8 {
        assert_eq!(l.get_diagonal_mask(sq(v)), t.get_diagonal_mask(sq(v)));
        assert_eq!(l.get_orthogonal_mask(sq(v)), t.get_orthogonal_mask(sq(v)));
        assert_eq!(l.get_king_mask(sq(v)), t.get_king_mask(sq(v)));
        assert_eq!(l.get_knight_mask(sq(v)), t.get_knight_mask(sq(v)));
        assert_eq!(
            l.get_pawn_attack_mask(Color::White, sq(v)),
            t.get_pawn_attack_mask(Color::White, sq(v))
        );
        assert_eq!(
            l.get_pawn_attack_mask(Color::Black, sq(v)),
            t.get_pawn_attack_mask(Color::Black, sq(v))
        );
        // probe the sliding lookups with a handful of occupancies
        for occ in [0u64, 0xFFFF_0000_0000_FFFF, 0x00FF_00FF_00FF_00FF] {
            let rk = occ & t.get_orthogonal_mask(sq(v));
            let bk = occ & t.get_diagonal_mask(sq(v));
            assert_eq!(l.get_rook_mask(sq(v), rk), t.get_rook_mask(sq(v), rk));
            assert_eq!(l.get_bishop_mask(sq(v), bk), t.get_bishop_mask(sq(v), bk));
        }
    }
}

#[test]
fn attacks_board_holds_only_the_moving_sides_attacks() {
    let t = tables();
    let mut pos = Position::new(START_FEN).unwrap();
    pos.compute_valid_moves(&t, Color::White);
    let white_attacks = pos.bitboards.get_attacks(Color::White);
    // a3 is attacked by white (the b1 knight and the b2 pawn)
    assert!(white_attacks & (1u64 << 16) != 0);
    // a6 is attacked only by black pieces and must not appear
    assert!(white_attacks & (1u64 << 40) == 0);
    // no black back-rank square is attacked by white at the start
    assert!(white_attacks & 0xFF00_0000_0000_0000 == 0);
}
