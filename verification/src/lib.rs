//! Legal-move substrate for a chess application.
//!
//! The crate models squares, pieces and 64-bit bitboards, precomputes attack
//! tables for every piece kind (magic multiply-shift hashing for the sliding
//! pieces), serialises those tables to a little-endian binary format, and
//! drives a `Position` state machine with pseudo-legal move generation,
//! move application, undo and redo.

pub mod attacks;
pub mod bitboard;
pub mod codec;
pub mod coords;
pub mod fen;
pub mod laws;
pub mod magic;
pub mod movegen;
pub mod position;
pub mod record;
pub mod tables;
