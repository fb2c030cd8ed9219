use chess_core::bitboard::{clear_bit, is_bit_set, set_bit, Bitboards};
use chess_core::coords::{Color, Square};

fn sq(v: u8) -> Square {
    Square::from_index(v)
}

#[test]
fn set_bit_then_read_is_set_on_every_square() {
    for v in 0..64u8 {
        let s = sq(v);
        assert!(is_bit_set(set_bit(0, s), s));
        assert!(is_bit_set(set_bit(0xDEAD_BEEF_1234_5678, s), s));
    }
}

#[test]
fn clear_bit_after_set_reads_clear_on_every_square() {
    for v in 0..64u8 {
        let s = sq(v);
        assert!(!is_bit_set(clear_bit(set_bit(0, s), s), s));
        assert!(!is_bit_set(clear_bit(set_bit(0xFFFF_0000_FFFF_0000, s), s), s));
    }
}

#[test]
fn bit_ops_leave_other_squares_alone() {
    let bb = set_bit(set_bit(0, sq(3)), sq(40));
    let bb2 = set_bit(bb, sq(10));
    assert!(is_bit_set(bb2, sq(3)));
    assert!(is_bit_set(bb2, sq(40)));
    let bb3 = clear_bit(bb2, sq(3));
    assert!(!is_bit_set(bb3, sq(3)));
    assert!(is_bit_set(bb3, sq(40)));
    assert!(is_bit_set(bb3, sq(10)));
}

#[test]
fn sentinel_square_carries_no_bit() {
    let none = Square::none();
    assert_eq!(set_bit(7, none), 7);
    assert_eq!(clear_bit(7, none), 7);
    assert!(!is_bit_set(u64::MAX, none));
}

#[test]
fn checkers_track_both_colors() {
    let mut b = Bitboards::new();
    b.set_checkers(Color::White, sq(0));
    b.set_checkers(Color::Black, sq(63));
    assert!(b.is_checkers_sq_set(Color::White, sq(0)));
    assert!(!b.is_checkers_sq_set(Color::White, sq(63)));
    assert!(b.is_checkers_sq_set(Color::Black, sq(63)));
    assert!(b.is_checkers_sq_set(Color::Both, sq(0)));
    assert!(b.is_checkers_sq_set(Color::Both, sq(63)));
    assert_eq!(b.get_checkers(Color::Both), (1u64 << 0) | (1u64 << 63));
    b.unset_checkers(Color::White, sq(0));
    assert!(!b.is_checkers_sq_set(Color::Both, sq(0)));
}

#[test]
fn neutral_color_owns_no_checkers() {
    let mut b = Bitboards::new();
    b.set_checkers(Color::Both, sq(5));
    assert_eq!(b.get_checkers(Color::White), 0);
    assert_eq!(b.get_checkers(Color::Black), 0);
}

#[test]
fn valid_move_cache_round_trips() {
    let mut b = Bitboards::new();
    b.set_valid_moves(sq(9), 0xF0F0);
    assert_eq!(b.get_valid_moves(sq(9)), 0xF0F0);
    assert_eq!(b.get_valid_moves(sq(10)), 0);
    assert!(b.is_valid_move(sq(9), sq(4)));
    assert!(!b.is_valid_move(sq(9), sq(0)));
}

#[test]
fn attacks_store_per_color() {
    let mut b = Bitboards::new();
    b.set_attacks(Color::White, 0xAA);
    b.set_attacks(Color::Black, 0x55);
    assert_eq!(b.get_attacks(Color::White), 0xAA);
    assert_eq!(b.get_attacks(Color::Black), 0x55);
    assert_eq!(b.get_attacks(Color::Both), 0xFF);
    b.set_attacks(Color::Both, 0x1);
    assert_eq!(b.get_attacks(Color::White), 0xAA);
}
