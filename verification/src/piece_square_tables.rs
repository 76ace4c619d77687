use vstd::prelude::*;
use crate::board_rep::{PAWN_CODE, KNIGHT_CODE, BISHOP_CODE, ROOK_CODE, QUEEN_CODE, KING_CODE};

verus! {

// Positional bonus tables, one entry per board square, rank-major from a1
// (index 0 is a1, index 7 is h1, index 63 is h8), stated from White's
// perspective. Black reads the vertically mirrored entry `63 - index`.
// Entries are small centipawn corrections, so `i8` holds them comfortably
// and bounds every lookup by the type alone.

pub const PAWN_PST: [i8; 64] = [
    0, 0, 0, 0, 0, 0, 0, 0,
    5, 10, 10, -20, -20, 10, 10, 5,
    5, -5, -10, 0, 0, -10, -5, 5,
    0, 0, 0, 20, 20, 0, 0, 0,
    5, 5, 10, 25, 25, 10, 5, 5,
    10, 10, 20, 30, 30, 20, 10, 10,
    50, 50, 50, 50, 50, 50, 50, 50,
    0, 0, 0, 0, 0, 0, 0, 0,
];

pub const KNIGHT_PST: [i8; 64] = [
    -50, -40, -30, -30, -30, -30, -40, -50,
    -40, -20, 0, 5, 5, 0, -20, -40,
    -30, 5, 10, 15, 15, 10, 5, -30,
    -30, 0, 15, 20, 20, 15, 0, -30,
    -30, 5, 15, 20, 20, 15, 5, -30,
    -30, 0, 10, 15, 15, 10, 0, -30,
    -40, -20, 0, 0, 0, 0, -20, -40,
    -50, -40, -30, -30, -30, -30, -40, -50,
];

pub const BISHOP_PST: [i8; 64] = [
    -20, -10, -10, -10, -10, -10, -10, -20,
    -10, 5, 0, 0, 0, 0, 5, -10,
    -10, 10, 10, 10, 10, 10, 10, -10,
    -10, 0, 10, 10, 10, 10, 0, -10,
    -10, 5, 5, 10, 10, 5, 5, -10,
    -10, 0, 5, 10, 10, 5, 0, -10,
    -10, 0, 0, 0, 0, 0, 0, -10,
    -20, -10, -10, -10, -10, -10, -10, -20,
];

pub const ROOK_PST: [i8; 64] = [
    0, 0, 0, 5, 5, 0, 0, 0,
    -5, 0, 0, 0, 0, 0, 0, -5,
    -5, 0, 0, 0, 0, 0, 0, -5,
    -5, 0, 0, 0, 0, 0, 0, -5,
    -5, 0, 0, 0, 0, 0, 0, -5,
    -5, 0, 0, 0, 0, 0, 0, -5,
    5, 10, 10, 10, 10, 10, 10, 5,
    0, 0, 0, 0, 0, 0, 0, 0,
];

pub const QUEEN_PST: [i8; 64] = [
    -20, -10, -10, -5, -5, -10, -10, -20,
    -10, 0, 5, 0, 0, 0, 0, -10,
    -10, 5, 5, 5, 5, 5, 0, -10,
    0, 0, 5, 5, 5, 5, 0, -5,
    -5, 0, 5, 5, 5, 5, 0, -5,
    -10, 0, 5, 5, 5, 5, 0, -10,
    -10, 0, 0, 0, 0, 0, 0, -10,
    -20, -10, -10, -5, -5, -10, -10, -20,
];

pub const MG_KING_PST: [i8; 64] = [
    20, 30, 10, 0, 0, 10, 30, 20,
    20, 20, 0, 0, 0, 0, 20, 20,
    -10, -20, -20, -20, -20, -20, -20, -10,
    -20, -30, -30, -40, -40, -30, -30, -20,
    -30, -40, -40, -50, -50, -40, -40, -30,
    -30, -40, -40, -50, -50, -40, -40, -30,
    -30, -40, -40, -50, -50, -40, -40, -30,
    -30, -40, -40, -50, -50, -40, -40, -30,
];

pub const EG_KING_PST: [i8; 64] = [
    -50, -30, -30, -30, -30, -30, -30, -50,
    -30, -30, 0, 0, 0, 0, -30, -30,
    -30, -10, 20, 30, 30, 20, -10, -30,
    -30, -10, 30, 40, 40, 30, -10, -30,
    -30, -10, 30, 40, 40, 30, -10, -30,
    -30, -10, 20, 30, 30, 20, -10, -30,
    -30, -20, -10, 0, 0, -10, -20, -30,
    -50, -40, -30, -20, -20, -30, -40, -50,
];

/// The White-perspective table entry for a piece code standing on a square,
/// with the king read from the midgame or the endgame table. Out-of-range
/// indices and codes that name no piece score zero.
pub open spec fn spec_pst(piece: u8, index: int, endgame: bool) -> int {
    if index < 0 || index >= 64 {
        0
    } else if piece == PAWN_CODE {
        PAWN_PST@[index] as int
    } else if piece == KNIGHT_CODE {
        KNIGHT_PST@[index] as int
    } else if piece == BISHOP_CODE {
        BISHOP_PST@[index] as int
    } else if piece == ROOK_CODE {
        ROOK_PST@[index] as int
    } else if piece == QUEEN_CODE {
        QUEEN_PST@[index] as int
    } else if piece == KING_CODE {
        if endgame {
            EG_KING_PST@[index] as int
        } else {
            MG_KING_PST@[index] as int
        }
    } else {
        0
    }
}

/// Every table entry is an `i8`, so every lookup stays within one pawn's
/// worth plus a margin.
pub proof fn lemma_pst_bounded(piece: u8, index: int, endgame: bool)
    ensures
        -128 <= spec_pst(piece, index, endgame) <= 128,
{
}

} // verus!
