use chess_core::coords::{Color, MoveType, Piece, Square};
use chess_core::position::Position;
use chess_core::tables::LookupTables;

const START_FEN: &str = "rnbqkbnr/pppppppp/8/8/8/8/PPPPPPPP/RNBQKBNR w KQkq - 0 1";

fn sq(v: u8) -> Square {
    Square::from_index(v)
}

fn big_tables() -> LookupTables {
    LookupTables::generate(3000, true).expect("table generation should finish within its budget")
}

#[derive(PartialEq, Debug)]
struct Snapshot {
    board: Vec<Piece>,
    white: u64,
    black: u64,
    side: Color,
    halfmove: u32,
    fullmove: u32,
}

fn snap(pos: &Position) -> Snapshot {
    Snapshot {
        board: pos.board_snapshot(),
        white: pos.bitboards.get_checkers(Color::White),
        black: pos.bitboards.get_checkers(Color::Black),
        side: pos.side_to_move(),
        halfmove: pos.halfmove_clock(),
        fullmove: pos.fullmove_count(),
    }
}

#[test]
fn start_position_loads_from_fen() {
    let pos = Position::new(START_FEN).unwrap();
    let board = pos.board_snapshot();
    assert_eq!(board[0], Piece::WRook);
    assert_eq!(board[1], Piece::WKnight);
    assert_eq!(board[4], Piece::WKing);
    assert_eq!(board[12], Piece::WPawn);
    assert_eq!(board[27], Piece::Empty);
    assert_eq!(board[51], Piece::BPawn);
    assert_eq!(board[59], Piece::BQueen);
    assert_eq!(board[63], Piece::BRook);
    assert_eq!(pos.side_to_move(), Color::White);
    assert_eq!(pos.halfmove_clock(), 0);
    assert_eq!(pos.fullmove_count(), 1);
    assert_eq!(pos.bitboards.get_checkers(Color::White), 0xFFFF);
    assert_eq!(pos.bitboards.get_checkers(Color::Black), 0xFFFF_0000_0000_0000);
    assert_eq!(pos.en_passant_square(), "-");
}

#[test]
fn fen_rejects_a_malformed_side_to_move_token() {
    assert!(Position::new("8/8/8/8/8/8/8/8 x KQkq - 0 1").is_none());
    assert!(Position::new("8/8/8/8/8/8/8/8 wb - - 0 1").is_none());
    assert!(Position::new("8/8/8/8/8/8/8/8 b - - 0 1").is_some());
}

#[test]
fn fen_clock_fields_parse_with_defaults_and_error_fallbacks() {
    let pos = Position::new("8/8/8/8/8/8/8/8 b KQkq - 42 7").unwrap();
    assert_eq!(pos.halfmove_clock(), 42);
    assert_eq!(pos.fullmove_count(), 7);
    assert_eq!(pos.side_to_move(), Color::Black);
    // missing fields fall back to 0 and 1
    let short = Position::new("8/8/8/8/8/8/8/8 w").unwrap();
    assert_eq!(short.halfmove_clock(), 0);
    assert_eq!(short.fullmove_count(), 1);
    // a malformed clock token parses as the field's default
    let bad = Position::new("8/8/8/8/8/8/8/8 w - - xyz -3").unwrap();
    assert_eq!(bad.halfmove_clock(), 0);
    assert_eq!(bad.fullmove_count(), 1);
    let bad2 = Position::new("8/8/8/8/8/8/8/8 w - - 0 x").unwrap();
    assert_eq!(bad2.halfmove_clock(), 0);
    assert_eq!(bad2.fullmove_count(), 1);
}

#[test]
fn two_square_push_sets_the_en_passant_target_to_the_skipped_square() {
    let t = big_tables();
    let mut pos = Position::new(START_FEN).unwrap();
    pos.compute_valid_moves(&t, Color::White);
    let m = pos.move_piece(sq(12), sq(28), true); // e2 -> e4
    assert_eq!(m.move_type, MoveType::TwoSquarePush);
    assert_eq!(pos.en_passant_square, sq(20)); // e3, the skipped square
    assert_eq!(pos.en_passant_square(), "E3");
    // a quiet reply clears the window again
    pos.compute_valid_moves(&t, Color::Black);
    pos.move_piece(sq(57), sq(42), true); // Nb8 -> c6
    assert_eq!(pos.en_passant_square, Square::none());
    assert_eq!(pos.en_passant_square(), "-");
}

#[test]
fn en_passant_capture_removes_the_pawn_behind_the_destination() {
    let t = big_tables();
    let mut pos = Position::new(START_FEN).unwrap();
    pos.compute_valid_moves(&t, Color::White);
    assert!(pos.move_piece(sq(12), sq(28), true).is_valid()); // e2-e4
    pos.compute_valid_moves(&t, Color::Black);
    assert!(pos.move_piece(sq(48), sq(40), true).is_valid()); // a7-a6
    pos.compute_valid_moves(&t, Color::White);
    assert!(pos.move_piece(sq(28), sq(36), true).is_valid()); // e4-e5
    pos.compute_valid_moves(&t, Color::Black);
    let push = pos.move_piece(sq(51), sq(35), true); // d7-d5
    assert_eq!(push.move_type, MoveType::TwoSquarePush);
    assert_eq!(pos.en_passant_square, sq(43)); // d6
    pos.compute_valid_moves(&t, Color::White);
    let ep = pos.move_piece(sq(36), sq(43), true); // e5xd6 en passant
    assert_eq!(ep.move_type, MoveType::EnPassant);
    assert_eq!(ep.captured_piece, Piece::BPawn);
    assert_eq!(ep.capture_piece_sq, sq(35)); // the square behind d6
    let board = pos.board_snapshot();
    assert_eq!(board[43], Piece::WPawn); // the capturer stands on d6
    assert_eq!(board[35], Piece::Empty); // the victim left d5, not d6
    assert_eq!(board[36], Piece::Empty);
}

#[test]
fn move_then_undo_restores_the_position_bit_for_bit() {
    let t = big_tables();
    let mut pos = Position::new(START_FEN).unwrap();
    pos.compute_valid_moves(&t, Color::White);
    assert!(pos.move_piece(sq(12), sq(28), true).is_valid()); // e2-e4
    pos.compute_valid_moves(&t, Color::Black);
    assert!(pos.move_piece(sq(51), sq(35), true).is_valid()); // d7-d5
    pos.compute_valid_moves(&t, Color::White);
    let before = snap(&pos);
    let m = pos.move_piece(sq(28), sq(35), true); // e4xd5
    assert_eq!(m.move_type, MoveType::Capture);
    assert_ne!(snap(&pos), before);
    assert!(pos.undo_move());
    assert_eq!(snap(&pos), before);
}

#[test]
fn quiet_move_then_undo_restores_clocks_exactly() {
    let t = big_tables();
    let mut pos =
        Position::new("rnbqkbnr/pppppppp/8/8/8/8/PPPPPPPP/RNBQKBNR b KQkq - 5 3").unwrap();
    pos.compute_valid_moves(&t, Color::Black);
    let before = snap(&pos);
    assert!(pos.move_piece(sq(57), sq(42), true).is_valid()); // Nb8-c6
    assert_eq!(pos.halfmove_clock(), 6);
    assert_eq!(pos.fullmove_count(), 4); // black moved
    assert!(pos.undo_move());
    assert_eq!(snap(&pos), before);
}

#[test]
fn undo_then_redo_reproduces_the_identical_record_and_position() {
    let t = big_tables();
    let mut pos = Position::new(START_FEN).unwrap();
    pos.compute_valid_moves(&t, Color::White);
    let first = pos.move_piece(sq(12), sq(28), true); // e2-e4
    assert!(first.is_valid());
    let after = snap(&pos);
    let ep_after = pos.en_passant_square;
    assert!(pos.undo_move());
    assert!(pos.redo_move());
    assert_eq!(pos.last_move(), first);
    assert_eq!(snap(&pos), after);
    assert_eq!(pos.en_passant_square, ep_after);
    assert_eq!(pos.move_history().len(), 1);
}

#[test]
fn invalid_moves_leave_the_position_fully_unchanged() {
    let t = big_tables();
    let mut pos = Position::new(START_FEN).unwrap();
    pos.compute_valid_moves(&t, Color::White);
    let before = snap(&pos);
    // empty origin
    let m1 = pos.move_piece(sq(28), sq(36), true);
    assert!(!m1.is_valid());
    assert_eq!(m1.move_type, MoveType::Invalid);
    // destination outside the cached valid-move set
    let m2 = pos.move_piece(sq(12), sq(36), true);
    assert!(!m2.is_valid());
    // enemy piece as origin
    let m3 = pos.move_piece(sq(51), sq(35), true);
    assert!(!m3.is_valid());
    // sentinel origin
    let m4 = pos.move_piece(Square::none(), sq(36), true);
    assert!(!m4.is_valid());
    assert_eq!(snap(&pos), before);
    assert_eq!(pos.move_history().len(), 0);
}

#[test]
fn undo_and_redo_on_empty_histories_are_no_ops() {
    let mut pos = Position::new(START_FEN).unwrap();
    let before = snap(&pos);
    assert!(!pos.undo_move());
    assert!(!pos.redo_move());
    assert_eq!(snap(&pos), before);
}

#[test]
fn a_fresh_move_clears_the_redo_history_a_redo_does_not() {
    let t = big_tables();
    let mut pos = Position::new(START_FEN).unwrap();
    pos.compute_valid_moves(&t, Color::White);
    assert!(pos.move_piece(sq(12), sq(28), true).is_valid()); // e2-e4
    assert!(pos.undo_move());
    // a fresh move invalidates the undone line
    assert!(pos.move_piece(sq(11), sq(27), true).is_valid()); // d2-d4
    assert!(!pos.redo_move());
}

#[test]
fn promotion_by_push_places_a_white_queen() {
    let t = big_tables();
    let mut pos = Position::new("1n6/P7/8/8/8/8/8/8 w - - 0 1").unwrap();
    pos.compute_valid_moves(&t, Color::White);
    let m = pos.move_piece(sq(48), sq(56), true); // a7-a8
    assert_eq!(m.move_type, MoveType::Promotion);
    assert_eq!(m.captured_piece, Piece::Empty);
    assert_eq!(pos.board_snapshot()[56], Piece::WQueen);
}

#[test]
fn promotion_by_capture_still_places_a_queen_of_the_moving_side() {
    let t = big_tables();
    let mut pos = Position::new("1n6/P7/8/8/8/8/8/8 w - - 0 1").unwrap();
    pos.compute_valid_moves(&t, Color::White);
    let m = pos.move_piece(sq(48), sq(57), true); // a7xb8
    assert_eq!(m.move_type, MoveType::Promotion);
    assert_eq!(m.captured_piece, Piece::BKnight);
    let board = pos.board_snapshot();
    assert_eq!(board[57], Piece::WQueen);
    assert_eq!(board[48], Piece::Empty);
    // the knight's occupancy bit is gone too
    assert_eq!(pos.bitboards.get_checkers(Color::Black), 0);
}

#[test]
fn black_promotion_places_a_black_queen() {
    let t = big_tables();
    let mut pos = Position::new("8/8/8/8/8/8/p7/1N6 b - - 0 1").unwrap();
    pos.compute_valid_moves(&t, Color::Black);
    let m = pos.move_piece(sq(8), sq(0), true); // a2-a1
    assert_eq!(m.move_type, MoveType::Promotion);
    assert_eq!(pos.board_snapshot()[0], Piece::BQueen);
}

#[test]
fn halfmove_clock_resets_on_pawn_moves_and_captures_only() {
    let t = big_tables();
    let mut pos =
        Position::new("rnbqkbnr/pppppppp/8/8/8/8/PPPPPPPP/RNBQKBNR w KQkq - 7 5").unwrap();
    pos.compute_valid_moves(&t, Color::White);
    assert!(pos.move_piece(sq(1), sq(18), true).is_valid()); // Nb1-c3: quiet
    assert_eq!(pos.halfmove_clock(), 8);
    pos.compute_valid_moves(&t, Color::Black);
    assert!(pos.move_piece(sq(52), sq(36), true).is_valid()); // e7-e5: pawn
    assert_eq!(pos.halfmove_clock(), 0);
    assert_eq!(pos.fullmove_count(), 6);
}

#[test]
fn move_records_carry_their_endpoints_and_pieces() {
    let t = big_tables();
    let mut pos = Position::new(START_FEN).unwrap();
    pos.compute_valid_moves(&t, Color::White);
    let m = pos.move_piece(sq(1), sq(18), true);
    assert_eq!(m.from(), sq(1));
    assert_eq!(m.to(), sq(18));
    assert_eq!(m.moved_piece(), Piece::WKnight);
    assert_eq!(m.captured_piece(), Piece::Empty);
    assert_eq!(m.capture_piece_sq(), Square::none());
    assert_eq!(m.move_type(), MoveType::Quiet);
    assert!(m.is_valid());
    assert_eq!(pos.last_move(), m);
    assert_eq!(pos.move_history(), vec![m]);
    // the numeric board snapshot encodes the packed piece codes
    let codes = pos.board_i32();
    assert_eq!(codes[18], 4); // a white knight
    assert_eq!(codes[1], 0);
    assert_eq!(codes[57], 12); // a black knight
}

#[test]
fn undo_of_an_en_passant_capture_restores_the_victim() {
    let t = big_tables();
    let mut pos = Position::new(START_FEN).unwrap();
    pos.compute_valid_moves(&t, Color::White);
    assert!(pos.move_piece(sq(12), sq(28), true).is_valid()); // e2-e4
    pos.compute_valid_moves(&t, Color::Black);
    assert!(pos.move_piece(sq(48), sq(40), true).is_valid()); // a7-a6
    pos.compute_valid_moves(&t, Color::White);
    assert!(pos.move_piece(sq(28), sq(36), true).is_valid()); // e4-e5
    pos.compute_valid_moves(&t, Color::Black);
    assert!(pos.move_piece(sq(51), sq(35), true).is_valid()); // d7-d5
    pos.compute_valid_moves(&t, Color::White);
    let before = snap(&pos);
    let ep = pos.move_piece(sq(36), sq(43), true); // e5xd6 en passant
    assert_eq!(ep.move_type, MoveType::EnPassant);
    assert!(pos.undo_move());
    assert_eq!(snap(&pos), before);
    // the en-passant window is reopened by the undo
    assert_eq!(pos.en_passant_square, sq(43));
}

#[test]
fn undo_of_a_promotion_capture_restores_board_and_occupancy() {
    let t = big_tables();
    let mut pos = Position::new("1n6/P7/8/8/8/8/8/8 w - - 0 1").unwrap();
    pos.compute_valid_moves(&t, Color::White);
    let before = snap(&pos);
    let m = pos.move_piece(sq(48), sq(57), true); // a7xb8, promoting
    assert_eq!(m.move_type, MoveType::Promotion);
    assert_eq!(pos.board_snapshot()[57], Piece::WQueen);
    assert!(pos.undo_move());
    assert_eq!(snap(&pos), before);
    assert_eq!(pos.board_snapshot()[57], Piece::BKnight);
    assert_ne!(pos.bitboards.get_checkers(Color::Black), 0);
}
