//! The record of one applied move, as `move_piece` classifies and returns
//! it and as undo and redo consume it.

use vstd::prelude::*;
use crate::coords::{MoveType, Piece, Square};

verus! {

/// Everything needed to apply and to reverse one move: endpoints, the
/// moved and captured pieces, the true square of the captured piece
/// (different from `to` only for en passant), the move kind, and a
/// snapshot of the halfmove clock for undo.
#[derive(Clone, Copy, Debug, PartialEq, Eq, Structural)]
pub struct MoveInfo {
    pub move_type: MoveType,
    pub from: Square,
    pub to: Square,
    pub moved_piece: Piece,
    pub captured_piece: Piece,
    pub capture_piece_sq: Square,
    pub halfmove_clock: u32,
}

impl MoveInfo {
    /// The sentinel record an illegal `move_piece` call returns.
    pub open spec fn spec_invalid() -> MoveInfo {
        MoveInfo {
            move_type: MoveType::Invalid,
            from: Square { v: 64 },
            to: Square { v: 64 },
            moved_piece: Piece::Empty,
            captured_piece: Piece::Empty,
            capture_piece_sq: Square { v: 64 },
            halfmove_clock: 0,
        }
    }

    /// The sentinel record an illegal `move_piece` call returns.
    pub fn invalid() -> (r: MoveInfo)
        ensures
            r == MoveInfo::spec_invalid(),
    {
        MoveInfo {
            move_type: MoveType::Invalid,
            from: Square { v: 64 },
            to: Square { v: 64 },
            moved_piece: Piece::Empty,
            captured_piece: Piece::Empty,
            capture_piece_sq: Square { v: 64 },
            halfmove_clock: 0,
        }
    }

    pub fn move_type(&self) -> (r: MoveType)
        ensures
            r == self.move_type,
    {
        self.move_type
    }

    pub fn from(&self) -> (r: Square)
        ensures
            r == self.from,
    {
        self.from
    }

    pub fn to(&self) -> (r: Square)
        ensures
            r == self.to,
    {
        self.to
    }

    pub fn moved_piece(&self) -> (r: Piece)
        ensures
            r == self.moved_piece,
    {
        self.moved_piece
    }

    pub fn captured_piece(&self) -> (r: Piece)
        ensures
            r == self.captured_piece,
    {
        self.captured_piece
    }

    pub fn capture_piece_sq(&self) -> (r: Square)
        ensures
            r == self.capture_piece_sq,
    {
        self.capture_piece_sq
    }

    /// Whether the record describes an accepted move.
    pub fn is_valid(&self) -> (r: bool)
        ensures
            r == (self.move_type != MoveType::Invalid),
    {
        self.move_type != MoveType::Invalid
    }
}

impl Default for MoveInfo {
    /// The sentinel record.
    fn default() -> (r: MoveInfo)
        ensures
            r == MoveInfo::spec_invalid(),
    {
        MoveInfo::invalid()
    }
}

} // verus!
