//! Global properties of the position state machine, proved once and for
//! all over the spec functions that `move_piece`, `undo_move` and
//! `redo_move` are verified against.

use vstd::prelude::*;
use crate::bitboard::{
    lemma_read_clear_bit, lemma_read_set_bit, lemma_u64_and_zero_left, spec_is_bit_set,
};
use crate::coords::{Color, MoveType, Piece, PieceType, Rank, Square};
use crate::fen::{spec_fill, spec_fill_init, spec_parse_fen, FillState};
use crate::position::{piece_at, spec_apply, spec_classify, spec_unapply, CoreView};

verus! {

broadcast use lemma_read_set_bit, lemma_read_clear_bit, lemma_u64_and_zero_left;

/// The occupancy invariant: each color's bitboard has exactly the bits of
/// the squares its pieces stand on.
pub open spec fn occ_ok(c: CoreView) -> bool {
    &&& c.board.len() == 64
    &&& forall|i: int|
        0 <= i < 64 ==> (spec_is_bit_set(c.white, Square { v: i as u8 })
            <==> Piece::spec_color_of(#[trigger] c.board[i]) == Color::White)
    &&& forall|i: int|
        0 <= i < 64 ==> (spec_is_bit_set(c.black, Square { v: i as u8 })
            <==> Piece::spec_color_of(#[trigger] c.board[i]) == Color::Black)
}

/// The board-side acceptance conditions of `move_piece`, over a core
/// view: the origin holds a piece of the side to move and the destination
/// holds no friendly piece. (The cache-membership condition lives with
/// the position, not the core.)
pub open spec fn move_ok(c: CoreView, from: Square, to: Square) -> bool {
    &&& c.side != Color::Both
    &&& from.v < 64
    &&& to.v < 64
    &&& Piece::spec_color_of(piece_at(c, from)) == c.side
    &&& Piece::spec_color_of(piece_at(c, to)) != c.side
}

/// An en-passant record is honest for `c`: its victim square is on the
/// board and holds an enemy piece. Every en-passant move reachable
/// through honest play has this shape.
pub open spec fn ep_honest(c: CoreView, from: Square, to: Square) -> bool {
    spec_classify(c, from, to).move_type == MoveType::EnPassant ==> {
        let cs = spec_classify(c, from, to).capture_piece_sq;
        &&& cs.v < 64
        &&& Piece::spec_color_of(piece_at(c, cs)) == c.side.spec_opposite()
    }
}

proof fn lemma_bit_move_restore(w: u64, f: u8, t: u8)
    requires
        f < 64,
        t < 64,
        f != t,
        w & (1u64 << f) != 0,
        w & (1u64 << t) == 0,
    ensures
        ((((w & !(1u64 << f)) | (1u64 << t)) | (1u64 << f)) & !(1u64 << t)) == w,
{
    assert(((((w & !(1u64 << f)) | (1u64 << t)) | (1u64 << f)) & !(1u64 << t)) == w)
        by (bit_vector)
        requires
            f < 64,
            t < 64,
            f != t,
            w & (1u64 << f) != 0,
            w & (1u64 << t) == 0,
    ;
}

proof fn lemma_bit_clear_then_set(w: u64, s: u8)
    requires
        s < 64,
        w & (1u64 << s) != 0,
    ensures
        ((w & !(1u64 << s)) | (1u64 << s)) == w,
{
    assert(((w & !(1u64 << s)) | (1u64 << s)) == w) by (bit_vector)
        requires
            w & (1u64 << s) != 0,
    ;
}

/// Applying an accepted move and then reversing its record restores the
/// board, both occupancy bitboards, the side to move, the halfmove clock
/// and the fullmove count to their exact pre-move values.
///
/// The fullmove count must not sit at the integer maximum (its saturating
/// increment would lose a step there), and an en-passant classification
/// must be honest about its victim.
pub proof fn lemma_move_then_undo(c: CoreView, from: Square, to: Square)
    requires
        occ_ok(c),
        move_ok(c, from, to),
        ep_honest(c, from, to),
        c.fullmove < 0xFFFF_FFFFu32,
    ensures
        ({
            let m = spec_classify(c, from, to);
            let c2 = spec_unapply(spec_apply(c, m), m);
            &&& c2.board == c.board
            &&& c2.white == c.white
            &&& c2.black == c.black
            &&& c2.side == c.side
            &&& c2.halfmove == c.halfmove
            &&& c2.fullmove == c.fullmove
        }),
{
    let m = spec_classify(c, from, to);
    let c1 = spec_apply(c, m);
    let c2 = spec_unapply(c1, m);
    let moved = piece_at(c, from);
    let col = Piece::spec_color_of(moved);
    assert(m.moved_piece == moved);
    assert(col == c.side);
    assert(from.v != to.v) by {
        if from.v == to.v {
            assert(piece_at(c, from) == piece_at(c, to));
        }
    }

    // mover bits: the origin bit was set, the destination bit clear
    if col == Color::White {
        assert(c.white & (1u64 << from.v) != 0);
        assert(c.white & (1u64 << to.v) == 0);
        lemma_bit_move_restore(c.white, from.v, to.v);
    } else {
        assert(c.black & (1u64 << from.v) != 0);
        assert(c.black & (1u64 << to.v) == 0);
        lemma_bit_move_restore(c.black, from.v, to.v);
    }

    match m.move_type {
        MoveType::Capture => {
            // the captured piece is an enemy piece standing on `to`
            assert(m.capture_piece_sq == to);
            assert(m.captured_piece == piece_at(c, to));
            assert(m.captured_piece != Piece::Empty);
            let ccol = Piece::spec_color_of(m.captured_piece);
            assert(ccol == col.spec_opposite());
            if ccol == Color::White {
                assert(c.white & (1u64 << to.v) != 0);
                lemma_bit_clear_then_set(c.white, to.v);
            } else {
                assert(c.black & (1u64 << to.v) != 0);
                lemma_bit_clear_then_set(c.black, to.v);
            }
            assert(c2.board =~= c.board);
        }
        MoveType::EnPassant => {
            let cs = m.capture_piece_sq;
            assert(cs.v < 64);
            assert(Piece::spec_color_of(piece_at(c, cs)) == col.spec_opposite());
            assert(m.captured_piece == piece_at(c, cs));
            // the victim square shares the destination's file, one rank off
            assert(cs.v != to.v);
            assert(cs.v % 8 == to.v % 8);
            assert(cs.v != from.v);
            if col.spec_opposite() == Color::White {
                assert(c.white & (1u64 << cs.v) != 0);
                lemma_bit_clear_then_set(c.white, cs.v);
            } else {
                assert(c.black & (1u64 << cs.v) != 0);
                lemma_bit_clear_then_set(c.black, cs.v);
            }
            assert(piece_at(c, to) == Piece::Empty);
            assert(c2.board =~= c.board);
        }
        MoveType::Promotion => {
            assert(m.capture_piece_sq == to);
            assert(m.captured_piece == piece_at(c, to));
            let ccol = Piece::spec_color_of(m.captured_piece);
            if ccol != Color::Both {
                assert(ccol == col.spec_opposite());
                if ccol == Color::White {
                    assert(c.white & (1u64 << to.v) != 0);
                    lemma_bit_clear_then_set(c.white, to.v);
                } else {
                    assert(c.black & (1u64 << to.v) != 0);
                    lemma_bit_clear_then_set(c.black, to.v);
                }
            }
            assert(c2.board =~= c.board);
        }
        _ => {
            assert(c2.board =~= c.board);
        }
    }
}

/// After undoing a move, replaying the same endpoints classifies to the
/// identical record and reproduces the identical post-move core state —
/// the application reads nothing that the undo fails to restore (the
/// en-passant target is rewritten from scratch by every application).
pub proof fn lemma_undo_then_redo(c: CoreView, from: Square, to: Square)
    requires
        occ_ok(c),
        move_ok(c, from, to),
        ep_honest(c, from, to),
        c.fullmove < 0xFFFF_FFFFu32,
    ensures
        ({
            let m = spec_classify(c, from, to);
            let c1 = spec_apply(c, m);
            let c0 = spec_unapply(c1, m);
            &&& spec_classify(c0, from, to) == m
            &&& spec_apply(c0, m) == c1
        }),
{
    lemma_move_then_undo(c, from, to);
    let m = spec_classify(c, from, to);
    let c1 = spec_apply(c, m);
    let c0 = spec_unapply(c1, m);
    assert(c0.board == c.board);
    assert(spec_classify(c0, from, to) == m);
    assert(spec_apply(c0, m).board =~= c1.board);
    assert(spec_apply(c0, m).ep == c1.ep);
    assert(spec_apply(c0, m) == c1);
}

/// A promotion always places a queen of the moving side's color on the
/// destination square, regardless of what (if anything) was captured.
pub proof fn lemma_promotion_places_queen(c: CoreView, from: Square, to: Square)
    requires
        c.board.len() == 64,
        to.v < 64,
        spec_classify(c, from, to).move_type == MoveType::Promotion,
    ensures
        ({
            let m = spec_classify(c, from, to);
            piece_at(spec_apply(c, m), to) == Piece::spec_make_piece(
                PieceType::Queen,
                Piece::spec_color_of(piece_at(c, from)),
            )
        }),
{
}

/// A two-square pawn push — a pawn on its relative second rank moving
/// two forward steps along its file onto an empty square — classifies as
/// a two-square push and sets the en-passant target to the skipped
/// square, the one the pawn stepped over.
pub proof fn lemma_two_square_push_sets_ep(c: CoreView, from: Square, to: Square)
    requires
        c.board.len() == 64,
        from.v < 64,
        to.v < 64,
        Piece::spec_type_of(piece_at(c, from)) == PieceType::Pawn,
        Rank::spec_relative_rank(
            Piece::spec_color_of(piece_at(c, from)),
            Square::spec_rank_of(from),
        ).v == 1,
        to == from.spec_step(
            crate::coords::Direction::spec_forward_direction(
                Piece::spec_color_of(piece_at(c, from)),
            ),
        ).spec_step(
            crate::coords::Direction::spec_forward_direction(
                Piece::spec_color_of(piece_at(c, from)),
            ),
        ),
        piece_at(c, to) == Piece::Empty,
    ensures
        spec_classify(c, from, to).move_type == MoveType::TwoSquarePush,
        spec_apply(c, spec_classify(c, from, to)).ep == from.spec_step(
            crate::coords::Direction::spec_forward_direction(
                Piece::spec_color_of(piece_at(c, from)),
            ),
        ),
{
    let col = Piece::spec_color_of(piece_at(c, from));
    if col == Color::White {
        assert(from.v / 8 == 1);
        assert(8 <= from.v < 16);
    } else {
        assert(col == Color::Black);
        assert(from.v / 8 == 6);
        assert(48 <= from.v < 56);
    }
}

/// An en-passant capture — a pawn moving diagonally onto an empty square,
/// its victim standing one backward step behind the destination — removes
/// the victim from that square behind the destination, not from the
/// destination square, which receives the capturing pawn itself.
pub proof fn lemma_en_passant_removes_pawn(c: CoreView, from: Square, to: Square)
    requires
        c.board.len() == 64,
        from.v < 64,
        to.v < 64,
        Piece::spec_type_of(piece_at(c, from)) == PieceType::Pawn,
        Rank::spec_relative_rank(
            Piece::spec_color_of(piece_at(c, from)),
            Square::spec_rank_of(from),
        ).v != 6,
        Square::spec_file_of(from) != Square::spec_file_of(to),
        piece_at(c, to) == Piece::Empty,
        to.spec_step(
            crate::coords::Direction::spec_forward_direction(
                Piece::spec_color_of(piece_at(c, from)).spec_opposite(),
            ),
        ).v < 64,
    ensures
        spec_classify(c, from, to).move_type == MoveType::EnPassant,
        ({
            let m = spec_classify(c, from, to);
            &&& m.capture_piece_sq == to.spec_step(
                crate::coords::Direction::spec_forward_direction(
                    Piece::spec_color_of(piece_at(c, from)).spec_opposite(),
                ),
            )
            &&& piece_at(spec_apply(c, m), m.capture_piece_sq) == Piece::Empty
            &&& piece_at(spec_apply(c, m), to) == piece_at(c, from)
        }),
{
    let m = spec_classify(c, from, to);
    let cs = m.capture_piece_sq;
    assert(cs.v != to.v);
    assert(cs.v % 8 == to.v % 8);
    assert(cs.v != from.v);
}

/// Classification never produces the `Invalid` kind: the sentinel record
/// can only come from a rejected call, never from an accepted move.
pub proof fn lemma_classify_never_invalid(c: CoreView, from: Square, to: Square)
    ensures
        spec_classify(c, from, to).move_type != MoveType::Invalid,
{
}


/// Applying an accepted move preserves the occupancy invariant: after the
/// move, each color's bitboard still has exactly the bits of the squares
/// its pieces stand on.
pub proof fn lemma_apply_preserves_occ(c: CoreView, from: Square, to: Square)
    requires
        occ_ok(c),
        move_ok(c, from, to),
        ep_honest(c, from, to),
    ensures
        occ_ok(spec_apply(c, spec_classify(c, from, to))),
{
    let m = spec_classify(c, from, to);
    let c1 = spec_apply(c, m);
    let moved = piece_at(c, from);
    let col = Piece::spec_color_of(moved);
    assert(from.v != to.v) by {
        if from.v == to.v {
            assert(piece_at(c, from) == piece_at(c, to));
        }
    }
    if m.move_type == MoveType::EnPassant {
        let cs = m.capture_piece_sq;
        assert(cs.v < 64);
        assert(cs.v % 8 == to.v % 8);
        assert(cs.v != to.v);
        assert(cs.v != from.v);
    }
    assert forall|i: int| 0 <= i < 64 implies ((spec_is_bit_set(c1.white, Square { v: i as u8 })
        <==> Piece::spec_color_of(#[trigger] c1.board[i]) == Color::White) && (spec_is_bit_set(
        c1.black,
        Square { v: i as u8 },
    ) <==> Piece::spec_color_of(c1.board[i]) == Color::Black)) by {
        let si = Square { v: i as u8 };
        assert(spec_is_bit_set(c.white, si) <==> Piece::spec_color_of(c.board[i]) == Color::White);
        assert(spec_is_bit_set(c.black, si) <==> Piece::spec_color_of(c.board[i]) == Color::Black);
    }
}

/// The running occupancy invariant of placement parsing.
pub open spec fn fill_occ_ok(st: FillState) -> bool {
    &&& st.board.len() == 64
    &&& forall|i: int|
        0 <= i < 64 ==> (spec_is_bit_set(st.white, Square { v: i as u8 })
            <==> Piece::spec_color_of(#[trigger] st.board[i]) == Color::White)
    &&& forall|i: int|
        0 <= i < 64 ==> (spec_is_bit_set(st.black, Square { v: i as u8 })
            <==> Piece::spec_color_of(#[trigger] st.board[i]) == Color::Black)
}

/// The squares the placement cursor has not passed yet: everything below
/// the current rank, and the rest of the current rank from the cursor's
/// file on. A saturated rank cursor has nothing left ahead.
pub open spec fn fill_ahead(st: FillState, i: int) -> bool {
    st.rank.v < 8 && (i / 8 < st.rank.v || (i / 8 == st.rank.v && i % 8 >= st.file.v))
}

/// Squares ahead of the cursor are still empty.
pub open spec fn fill_fresh(st: FillState) -> bool {
    forall|i: int| 0 <= i < 64 && #[trigger] fill_ahead(st, i) ==> st.board[i] == Piece::Empty
}

/// Placement parsing preserves the occupancy invariant: the cursor only
/// ever writes squares it has not passed, which are still empty, so a
/// placed piece never strands a stale occupancy bit.
pub proof fn lemma_fill_preserves_occ(s: Seq<char>, i: int, end: int, st: FillState)
    requires
        fill_occ_ok(st),
        fill_fresh(st),
    ensures
        fill_occ_ok(spec_fill(s, i, end, st)),
        fill_fresh(spec_fill(s, i, end, st)),
    decreases end - i,
{
    if i < 0 || i >= end || i >= s.len() {
    } else {
        let c = s[i];
        let st2 = if c == '/' {
            FillState { file: crate::coords::File { v: 0 }, rank: st.rank.spec_minus(1), ..st }
        } else if crate::fen::spec_is_digit(c) {
            FillState { file: st.file.spec_plus((c as u32 - 48) as u8), ..st }
        } else {
            let color = if crate::fen::spec_is_upper(c) {
                Color::White
            } else {
                Color::Black
            };
            let sq = Square::spec_make_square(st.file, st.rank);
            let piece = Piece::spec_make_piece(PieceType::spec_make_piece_type(c), color);
            FillState {
                board: crate::position::board_set(st.board, sq, piece),
                white: if piece != Piece::Empty && color == Color::White {
                    crate::bitboard::spec_set_bit(st.white, sq)
                } else {
                    st.white
                },
                black: if piece != Piece::Empty && color == Color::Black {
                    crate::bitboard::spec_set_bit(st.black, sq)
                } else {
                    st.black
                },
                file: st.file.spec_plus(1),
                ..st
            }
        };
        if c == '/' || crate::fen::spec_is_digit(c) {
            assert(fill_occ_ok(st2));
            assert forall|k: int| 0 <= k < 64 && #[trigger] fill_ahead(st2, k) implies st2.board[k]
                == Piece::Empty by {
                assert(fill_ahead(st, k));
            }
        } else {
            let sq = Square::spec_make_square(st.file, st.rank);
            if sq.v < 64 {
                assert(sq.v / 8 == st.rank.v && sq.v % 8 == st.file.v);
                assert(fill_ahead(st, sq.v as int));
                assert(st.board[sq.v as int] == Piece::Empty);
                assert(!spec_is_bit_set(st.white, sq));
                assert(!spec_is_bit_set(st.black, sq));
            }
            assert forall|k: int| 0 <= k < 64 implies ((spec_is_bit_set(
                st2.white,
                Square { v: k as u8 },
            ) <==> Piece::spec_color_of(#[trigger] st2.board[k]) == Color::White) && (
            spec_is_bit_set(st2.black, Square { v: k as u8 }) <==> Piece::spec_color_of(
                st2.board[k],
            ) == Color::Black)) by {
                let sk = Square { v: k as u8 };
                assert(spec_is_bit_set(st.white, sk) <==> Piece::spec_color_of(st.board[k])
                    == Color::White);
                assert(spec_is_bit_set(st.black, sk) <==> Piece::spec_color_of(st.board[k])
                    == Color::Black);
            }
            assert forall|k: int| 0 <= k < 64 && #[trigger] fill_ahead(st2, k) implies st2.board[k]
                == Piece::Empty by {
                assert(fill_ahead(st, k));
                assert(k != sq.v as int);
            }
        }
        lemma_fill_preserves_occ(s, i + 1, end, st2);
    }
}

/// Every successfully parsed position satisfies the occupancy invariant:
/// its bitboards equal the boolean union of its non-empty board cells per
/// color.
pub proof fn lemma_fen_establishes_occ(s: Seq<char>)
    requires
        spec_parse_fen(s) is Some,
    ensures
        occ_ok(spec_parse_fen(s).unwrap()),
{
    let st0 = spec_fill_init();
    assert(fill_occ_ok(st0)) by {
        assert(forall|i: int| 0 <= i < 64 ==> #[trigger] st0.board[i] == Piece::Empty);
    }
    assert(fill_fresh(st0));
    let ts0 = crate::fen::spec_skip_ws(s, 0);
    let te0 = crate::fen::spec_token_end(s, ts0);
    lemma_fill_preserves_occ(s, ts0, te0, st0);
}


/// The composed en-passant scenario: a genuine two-square push opens an
/// honest window — the skipped square becomes the target and the pushed
/// pawn stands one forward step behind it — and an immediately following
/// enemy pawn capture onto that target is accepted by the board-side
/// guards, classifies as en passant with the pushed pawn as its victim,
/// and removes that pawn from its own square, not from the target. The
/// window also discharges `ep_honest`, the hypothesis of the undo and
/// redo laws, for the capture.
pub proof fn lemma_double_push_then_en_passant(
    c: CoreView,
    from: Square,
    to: Square,
    from2: Square,
)
    requires
        occ_ok(c),
        move_ok(c, from, to),
        Piece::spec_type_of(piece_at(c, from)) == PieceType::Pawn,
        Rank::spec_relative_rank(
            Piece::spec_color_of(piece_at(c, from)),
            Square::spec_rank_of(from),
        ).v == 1,
        to == from.spec_step(
            crate::coords::Direction::spec_forward_direction(
                Piece::spec_color_of(piece_at(c, from)),
            ),
        ).spec_step(
            crate::coords::Direction::spec_forward_direction(
                Piece::spec_color_of(piece_at(c, from)),
            ),
        ),
        piece_at(c, to) == Piece::Empty,
        piece_at(
            c,
            from.spec_step(
                crate::coords::Direction::spec_forward_direction(
                    Piece::spec_color_of(piece_at(c, from)),
                ),
            ),
        ) == Piece::Empty,
        from2.v < 64,
        Piece::spec_type_of(piece_at(c, from2)) == PieceType::Pawn,
        Piece::spec_color_of(piece_at(c, from2)) == c.side.spec_opposite(),
        from2.v / 8 == to.v / 8,
        from2.v % 8 != from.v % 8,
    ensures
        ({
            let m1 = spec_classify(c, from, to);
            let c1 = spec_apply(c, m1);
            let ep = c1.ep;
            let m2 = spec_classify(c1, from2, ep);
            &&& m1.move_type == MoveType::TwoSquarePush
            &&& ep == from.spec_step(
                crate::coords::Direction::spec_forward_direction(
                    Piece::spec_color_of(piece_at(c, from)),
                ),
            )
            &&& move_ok(c1, from2, ep)
            &&& ep_honest(c1, from2, ep)
            &&& m2.move_type == MoveType::EnPassant
            &&& m2.capture_piece_sq == to
            &&& m2.captured_piece == piece_at(c, from)
            &&& piece_at(spec_apply(c1, m2), to) == Piece::Empty
            &&& piece_at(spec_apply(c1, m2), ep) == piece_at(c, from2)
        }),
{
    let col = Piece::spec_color_of(piece_at(c, from));
    lemma_two_square_push_sets_ep(c, from, to);
    let m1 = spec_classify(c, from, to);
    let c1 = spec_apply(c, m1);
    let ep = c1.ep;

    // geometry of the push: the target sits two forward steps from the
    // origin, the window one, all three on the origin's file
    if col == Color::White {
        assert(from.v / 8 == 1);
        assert(8 <= from.v < 16);
        assert(to.v == from.v + 16);
        assert(ep.v == from.v + 8);
    } else {
        assert(col == Color::Black);
        assert(from.v / 8 == 6);
        assert(48 <= from.v < 56);
        assert(to.v == from.v - 16);
        assert(ep.v == from.v - 8);
    }
    assert(to.v % 8 == from.v % 8);
    assert(ep.v % 8 == from.v % 8);
    assert(from2.v != from.v && from2.v != to.v && from2.v != ep.v);
    assert(ep.v != from.v && ep.v != to.v);

    // the capturer and the window are untouched by the push
    assert(piece_at(c1, from2) == piece_at(c, from2));
    assert(piece_at(c1, ep) == Piece::Empty);
    // the pushed pawn now stands on the target square
    assert(piece_at(c1, to) == piece_at(c, from));
    assert(c1.side == col.spec_opposite());
    assert(move_ok(c1, from2, ep));

    // the capture classifies as en passant onto the window, victim behind
    let col2 = Piece::spec_color_of(piece_at(c1, from2));
    assert(col2 == c1.side);
    if col == Color::White {
        assert(from2.v / 8 == 3);
        assert(Rank::spec_relative_rank(col2, Square::spec_rank_of(from2)).v == 4);
        assert(ep.spec_step(
            crate::coords::Direction::spec_forward_direction(col2.spec_opposite()),
        ).v == ep.v + 8);
    } else {
        assert(from2.v / 8 == 4);
        assert(Rank::spec_relative_rank(col2, Square::spec_rank_of(from2)).v == 4);
        assert(ep.spec_step(
            crate::coords::Direction::spec_forward_direction(col2.spec_opposite()),
        ).v == ep.v - 8);
    }
    let m2 = spec_classify(c1, from2, ep);
    assert(m2.move_type == MoveType::EnPassant);
    assert(m2.capture_piece_sq == to);
    assert(ep_honest(c1, from2, ep));

    assert(c1.board.len() == 64);
    lemma_en_passant_removes_pawn(c1, from2, ep);
}

} // verus!
